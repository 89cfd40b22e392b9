//! The declarative layout tree of the login form.

use vstd::prelude::*;
use crate::text::copy_strings;

verus! {

/// A node of the layout tree.
#[derive(Debug)]
pub enum Component {
    /// Password form field component
    Password(PasswordComponent),
    /// Username form field component
    Username(UsernameComponent),
    /// Runner select form field component
    Runner(RunnerComponent),
    /// Box component
    Box(BoxComponent),
    /// Label component displaying the current date time
    DateTime(DateTimeComponent),
    /// Label component displaying any text
    Label(LabelComponent),
    /// Button component to run a command on click
    Button(ButtonComponent),
}

#[derive(Debug)]
pub struct RunnerComponent {
    /// Css classes which are applied to the runner dropdown
    pub classes: Vec<String>,
}

#[derive(Debug)]
pub struct DateTimeComponent {
    /// Css classes which are applied to the datetime label
    pub classes: Vec<String>,
    /// Format string used for the date
    pub format: String,
    /// Milliseconds after which the date time should be updated
    pub interval: u64,
}

#[derive(Debug)]
pub struct LabelComponent {
    /// Css classes which are applied to the label
    pub classes: Vec<String>,
    /// Static text value of the label
    pub label: String,
}

#[derive(Debug)]
pub struct UsernameComponent {
    /// Css classes which are applied to the form field
    pub classes: Vec<String>,
    /// Placeholder text for the form field
    pub placeholder: String,
}

#[derive(Debug)]
pub struct PasswordComponent {
    /// Css classes which are applied to the form field
    pub classes: Vec<String>,
    /// Placeholder text for the form field
    pub placeholder: String,
}

#[derive(Debug)]
pub struct BoxComponent {
    /// Css classes which are applied to the box
    pub classes: Vec<String>,
    /// Horizontal alignment of children in the box
    pub halign: Align,
    /// Vertical alignment of children in the box
    pub valign: Align,
    /// Boolean whether the box should expand horizontally
    pub hexpand: bool,
    /// Boolean whether the box should expand vertically
    pub vexpand: bool,
    /// Requested width of the box
    pub width: i32,
    /// Spacing between the children of the box
    pub spacing: i32,
    /// Orientation of the children of the box
    pub orientation: Orientation,
    /// Children of the box component
    pub children: Vec<Component>,
}

#[derive(Clone, Copy, Debug, PartialEq, Eq, Structural)]
pub enum Align {
    Fill,
    Start,
    End,
    Center,
    Baseline,
}

#[derive(Clone, Copy, Debug, PartialEq, Eq, Structural)]
pub enum Orientation {
    Horizontal,
    Vertical,
}

#[derive(Debug)]
pub struct ButtonComponent {
    /// Label displayed in the button
    pub label: String,
    /// Css classes which are applied to the button
    pub classes: Vec<String>,
    /// Command to run when the button is clicked
    pub command: String,
}

impl RunnerComponent {
    /// Whether this is the selector that a layout gets when it says nothing more.
    pub open spec fn is_default(&self) -> bool {
        self.classes.deep_view() == seq!["runner"@, "dropdown"@]
    }
}

impl Default for RunnerComponent {
    fn default() -> (r: Self)
        ensures
            r.is_default(),
    {
        let r = Self { classes: vec!["runner".to_owned(), "dropdown".to_owned()] };
        assert(r.classes.deep_view() =~= seq!["runner"@, "dropdown"@]);
        r
    }
}

impl DateTimeComponent {
    /// Whether this is the clock that a layout gets when it says nothing more.
    pub open spec fn is_default(&self) -> bool {
        &&& self.classes.deep_view() == seq!["label"@, "datetime"@]
        &&& self.format@ == "%H:%M"@
        &&& self.interval == 1000
    }
}

impl Default for DateTimeComponent {
    fn default() -> (r: Self)
        ensures
            r.is_default(),
    {
        let r = Self {
            classes: vec!["label".to_owned(), "datetime".to_owned()],
            format: "%H:%M".to_owned(),
            interval: 1000,
        };
        assert(r.classes.deep_view() =~= seq!["label"@, "datetime"@]);
        r
    }
}

impl LabelComponent {
    /// Whether this is the label that a layout gets when it says nothing more.
    pub open spec fn is_default(&self) -> bool {
        &&& self.classes.deep_view() == seq!["label"@]
        &&& self.label@ == Seq::<char>::empty()
    }
}

impl Default for LabelComponent {
    fn default() -> (r: Self)
        ensures
            r.is_default(),
    {
        let r = Self { classes: vec!["label".to_owned()], label: String::new() };
        assert(r.classes.deep_view() =~= seq!["label"@]);
        r
    }
}

impl UsernameComponent {
    /// Whether this is the field that a layout gets when it says nothing more.
    pub open spec fn is_default(&self) -> bool {
        &&& self.classes.deep_view() == seq!["input"@, "username"@]
        &&& self.placeholder@ == "Username"@
    }
}

impl Default for UsernameComponent {
    fn default() -> (r: Self)
        ensures
            r.is_default(),
    {
        let r = Self {
            classes: vec!["input".to_owned(), "username".to_owned()],
            placeholder: "Username".to_owned(),
        };
        assert(r.classes.deep_view() =~= seq!["input"@, "username"@]);
        r
    }
}

impl PasswordComponent {
    /// Whether this is the field that a layout gets when it says nothing more.
    pub open spec fn is_default(&self) -> bool {
        &&& self.classes.deep_view() == seq!["input"@, "password"@]
        &&& self.placeholder@ == "Password"@
    }
}

impl Default for PasswordComponent {
    fn default() -> (r: Self)
        ensures
            r.is_default(),
    {
        let r = Self {
            classes: vec!["input".to_owned(), "password".to_owned()],
            placeholder: "Password".to_owned(),
        };
        assert(r.classes.deep_view() =~= seq!["input"@, "password"@]);
        r
    }
}

impl BoxComponent {
    /// Whether the box is laid out as one is when a layout says nothing
    /// more: centred, expanding, vertical. The children are not looked at.
    pub open spec fn has_default_attributes(&self) -> bool {
        &&& self.classes.deep_view() == seq!["box"@]
        &&& self.halign == Align::Center
        &&& self.valign == Align::Center
        &&& self.hexpand
        &&& self.vexpand
        &&& self.width == 500
        &&& self.spacing == 12
        &&& self.orientation == Orientation::Vertical
    }

    /// Whether this is the box that a layout gets when it says nothing more.
    pub open spec fn is_default(&self) -> bool {
        &&& self.has_default_attributes()
        &&& self.children@.len() == 0
    }
}

impl Default for BoxComponent {
    fn default() -> (r: Self)
        ensures
            r.is_default(),
    {
        let r = Self {
            spacing: 12,
            orientation: Orientation::Vertical,
            children: Vec::new(),
            classes: vec!["box".to_owned()],
            halign: Align::Center,
            valign: Align::Center,
            hexpand: true,
            vexpand: true,
            width: 500,
        };
        assert(r.classes.deep_view() =~= seq!["box"@]);
        r
    }
}

impl ButtonComponent {
    /// Whether this is the button that a layout gets when it says nothing more.
    pub open spec fn is_default(&self) -> bool {
        &&& self.classes.deep_view() == seq!["button"@]
        &&& self.label@ == Seq::<char>::empty()
        &&& self.command@ == Seq::<char>::empty()
    }
}

impl Default for ButtonComponent {
    fn default() -> (r: Self)
        ensures
            r.is_default(),
    {
        let r = Self {
            command: String::new(),
            classes: vec!["button".to_owned()],
            label: String::new(),
        };
        assert(r.classes.deep_view() =~= seq!["button"@]);
        r
    }
}

impl Component {
    /// The number of nodes in the tree.
    pub open spec fn size(&self) -> nat
        decreases self,
    {
        match self {
            Component::Box(b) => 1 + Self::size_all(b.children@),
            _ => 1,
        }
    }

    /// The number of nodes in a row of trees.
    pub open spec fn size_all(nodes: Seq<Component>) -> nat
        decreases nodes,
    {
        if nodes.len() == 0 {
            0
        } else {
            Self::size_all(nodes.drop_last()) + nodes.last().size()
        }
    }

    /// Counts the nodes of the tree; `None` where the count does not fit
    /// the machine's word.
    pub fn node_count(&self) -> (count: Option<usize>)
        ensures
            count == (if self.size() <= usize::MAX {
                Some(self.size() as usize)
            } else {
                None
            }),
        decreases self,
    {
        match self {
            Component::Box(b) => {
                let mut total: usize = 1;
                let mut i: usize = 0;
                while i < b.children.len()
                    invariant
                        i <= b.children.len(),
                        self == Component::Box(*b),
                        total == 1 + Self::size_all(b.children@.take(i as int)),
                    decreases b.children.len() - i,
                {
                    proof {
                        assert(self->Box_0 == *b);
                        assert(decreases_to!(*self => self->Box_0.children@[i as int]));
                        assert(b.children@.take(i + 1).drop_last() =~= b.children@.take(i as int));
                        Self::size_all_grows(b.children@, i + 1);
                    }
                    match b.children[i].node_count() {
                        Some(k) => {
                            if total > usize::MAX - k {
                                return None;
                            }
                            total = total + k;
                        },
                        None => {
                            return None;
                        },
                    }
                    i = i + 1;
                }
                proof {
                    assert(b.children@.take(i as int) =~= b.children@);
                }
                Some(total)
            },
            _ => Some(1),
        }
    }

    /// A row of trees holds at least as many nodes as any of its beginnings.
    pub proof fn size_all_grows(nodes: Seq<Component>, n: int)
        requires
            0 <= n <= nodes.len(),
        ensures
            Self::size_all(nodes.take(n)) <= Self::size_all(nodes),
        decreases nodes.len(),
    {
        if n == nodes.len() {
            assert(nodes.take(n) =~= nodes);
        } else {
            assert(nodes.drop_last().take(n) =~= nodes.take(n));
            Self::size_all_grows(nodes.drop_last(), n);
        }
    }
}

impl RunnerComponent {
    /// Whether two of these say the same.
    pub open spec fn same(&self, other: &Self) -> bool {
        &&& self.classes.deep_view() == other.classes.deep_view()
    }
}

impl Clone for RunnerComponent {
    fn clone(&self) -> (copy: Self)
        ensures
            self.same(&copy),
    {
        Self {
            classes: copy_strings(&self.classes),
        }
    }
}

impl DateTimeComponent {
    /// Whether two of these say the same.
    pub open spec fn same(&self, other: &Self) -> bool {
        &&& self.classes.deep_view() == other.classes.deep_view()
        &&& self.format@ == other.format@
        &&& self.interval == other.interval
    }
}

impl Clone for DateTimeComponent {
    fn clone(&self) -> (copy: Self)
        ensures
            self.same(&copy),
    {
        Self {
            classes: copy_strings(&self.classes),
            format: self.format.clone(),
            interval: self.interval,
        }
    }
}

impl LabelComponent {
    /// Whether two of these say the same.
    pub open spec fn same(&self, other: &Self) -> bool {
        &&& self.classes.deep_view() == other.classes.deep_view()
        &&& self.label@ == other.label@
    }
}

impl Clone for LabelComponent {
    fn clone(&self) -> (copy: Self)
        ensures
            self.same(&copy),
    {
        Self {
            classes: copy_strings(&self.classes),
            label: self.label.clone(),
        }
    }
}

impl UsernameComponent {
    /// Whether two of these say the same.
    pub open spec fn same(&self, other: &Self) -> bool {
        &&& self.classes.deep_view() == other.classes.deep_view()
        &&& self.placeholder@ == other.placeholder@
    }
}

impl Clone for UsernameComponent {
    fn clone(&self) -> (copy: Self)
        ensures
            self.same(&copy),
    {
        Self {
            classes: copy_strings(&self.classes),
            placeholder: self.placeholder.clone(),
        }
    }
}

impl PasswordComponent {
    /// Whether two of these say the same.
    pub open spec fn same(&self, other: &Self) -> bool {
        &&& self.classes.deep_view() == other.classes.deep_view()
        &&& self.placeholder@ == other.placeholder@
    }
}

impl Clone for PasswordComponent {
    fn clone(&self) -> (copy: Self)
        ensures
            self.same(&copy),
    {
        Self {
            classes: copy_strings(&self.classes),
            placeholder: self.placeholder.clone(),
        }
    }
}

impl ButtonComponent {
    /// Whether two of these say the same.
    pub open spec fn same(&self, other: &Self) -> bool {
        &&& self.label@ == other.label@
        &&& self.classes.deep_view() == other.classes.deep_view()
        &&& self.command@ == other.command@
    }
}

impl Clone for ButtonComponent {
    fn clone(&self) -> (copy: Self)
        ensures
            self.same(&copy),
    {
        Self {
            label: self.label.clone(),
            classes: copy_strings(&self.classes),
            command: self.command.clone(),
        }
    }
}

impl BoxComponent {
    /// Whether two boxes are laid out alike. The children are not looked at.
    pub open spec fn same_attributes(&self, other: &Self) -> bool {
        &&& self.classes.deep_view() == other.classes.deep_view()
        &&& self.halign == other.halign
        &&& self.valign == other.valign
        &&& self.hexpand == other.hexpand
        &&& self.vexpand == other.vexpand
        &&& self.width == other.width
        &&& self.spacing == other.spacing
        &&& self.orientation == other.orientation
    }

    /// Whether two boxes say the same: they are laid out alike, and their
    /// children say the same, one by one.
    pub open spec fn same(&self, other: &Self) -> bool
        decreases self,
    {
        &&& self.same_attributes(other)
        &&& Component::same_all(self.children@, other.children@)
    }
}

impl Component {
    /// Whether two layouts say the same: node by node, the same kind of
    /// node with the same content.
    pub open spec fn same(&self, other: &Self) -> bool
        decreases self,
    {
        match (self, other) {
            (Component::Password(a), Component::Password(b)) => a.same(b),
            (Component::Username(a), Component::Username(b)) => a.same(b),
            (Component::Runner(a), Component::Runner(b)) => a.same(b),
            (Component::Box(a), Component::Box(b)) => {
                &&& a.same_attributes(b)
                &&& Self::same_all(a.children@, b.children@)
            },
            (Component::DateTime(a), Component::DateTime(b)) => a.same(b),
            (Component::Label(a), Component::Label(b)) => a.same(b),
            (Component::Button(a), Component::Button(b)) => a.same(b),
            _ => false,
        }
    }

    /// Whether two rows of layouts say the same, one by one.
    pub open spec fn same_all(nodes: Seq<Component>, others: Seq<Component>) -> bool
        decreases nodes,
    {
        &&& nodes.len() == others.len()
        &&& forall|i: int| 0 <= i < nodes.len() ==> (#[trigger] nodes[i]).same(&others[i])
    }
}

impl Clone for BoxComponent {
    fn clone(&self) -> (copy: Self)
        ensures
            self.same(&copy),
        decreases self,
    {
        let mut children: Vec<Component> = Vec::new();
        let mut i: usize = 0;
        while i < self.children.len()
            invariant
                i <= self.children.len(),
                children@.len() == i,
                forall|j: int| 0 <= j < i ==> (#[trigger] self.children@[j]).same(&children@[j]),
            decreases self.children.len() - i,
        {
            proof {
                assert(decreases_to!(*self => self.children@[i as int]));
            }
            children.push(self.children[i].clone());
            i = i + 1;
        }
        BoxComponent {
            classes: copy_strings(&self.classes),
            halign: self.halign,
            valign: self.valign,
            hexpand: self.hexpand,
            vexpand: self.vexpand,
            width: self.width,
            spacing: self.spacing,
            orientation: self.orientation,
            children,
        }
    }
}

impl Clone for Component {
    fn clone(&self) -> (copy: Self)
        ensures
            self.same(&copy),
        decreases self,
    {
        match self {
            Component::Password(c) => Component::Password(c.clone()),
            Component::Username(c) => Component::Username(c.clone()),
            Component::Runner(c) => Component::Runner(c.clone()),
            Component::Box(c) => Component::Box(c.clone()),
            Component::DateTime(c) => Component::DateTime(c.clone()),
            Component::Label(c) => Component::Label(c.clone()),
            Component::Button(c) => Component::Button(c.clone()),
        }
    }
}

} // verus!
