//! A health-checking node for an inspection tree.
//!
//! The node reports a program's health as a status text and, while the
//! program is unhealthy, a message that says why. The status is `STARTING_UP`
//! until the program reports, then `OK` or `UNHEALTHY`.

use vstd::prelude::*;

verus! {

/// The name of the health node in the inspection tree.
pub const FUCHSIA_INSPECT_HEALTH: &'static str = "fuchsia.inspect.Health";

/// The key of the status property.
pub const STATUS_PROPERTY_KEY: &'static str = "status";

/// The key of the message property.
pub const MESSAGE_PROPERTY_KEY: &'static str = "message";

/// A text property of an inspection node.
#[derive(Debug, PartialEq, Eq)]
pub struct StringProperty {
    pub key: String,
    pub value: String,
}

impl StringProperty {
    /// Gives the property a new value.
    pub fn set(&mut self, value: &str)
        ensures
            final(self).key == old(self).key,
            final(self).value@ == value@,
    {
        self.value = value.to_owned();
    }
}

/// A node of an inspection tree, known by the names that lead to it from the
/// root.
#[derive(Debug, PartialEq, Eq)]
pub struct InspectNode {
    pub path: Vec<String>,
}

impl InspectNode {
    /// The names that lead to the node, as texts.
    pub open spec fn names(&self) -> Seq<Seq<char>> {
        self.path@.map_values(|name: String| name@)
    }

    /// The root of an inspection tree.
    pub fn root() -> (node: InspectNode)
        ensures
            node.names() == Seq::<Seq<char>>::empty(),
    {
        let node = InspectNode { path: Vec::new() };
        assert(node.names() =~= Seq::<Seq<char>>::empty());
        node
    }

    /// The child of this node that is called `name`.
    pub fn create_child(&self, name: &str) -> (child: InspectNode)
        ensures
            child.names() == self.names().push(name@),
    {
        let mut path: Vec<String> = Vec::new();
        let mut at: usize = 0;
        while at < self.path.len()
            invariant
                at <= self.path@.len(),
                path@.len() == at,
                forall|j: int| 0 <= j < at ==> path@[j]@ == self.path@[j]@,
            decreases self.path@.len() - at,
        {
            path.push(self.path[at].clone());
            at += 1;
        }
        path.push(name.to_owned());
        let child = InspectNode { path };
        assert(child.names() =~= self.names().push(name@));
        child
    }

    /// The property of this node with the given key and value.
    pub fn create_string(&self, key: &str, value: &str) -> (property: StringProperty)
        ensures
            property.key@ == key@,
            property.value@ == value@,
    {
        StringProperty { key: key.to_owned(), value: value.to_owned() }
    }
}

/// The standard health states.
#[derive(Clone, Copy, Debug, PartialEq, Eq, Structural)]
pub enum Status {
    /// Running, but no health has been reported yet.
    StartingUp,
    /// The program reported a problem; a message explains it.
    Unhealthy,
    /// The program reported healthy operation.
    Healthy,
}

impl Status {
    /// The text by which the status is reported.
    pub open spec fn text(&self) -> Seq<char> {
        match self {
            Status::StartingUp => "STARTING_UP"@,
            Status::Unhealthy => "UNHEALTHY"@,
            Status::Healthy => "OK"@,
        }
    }

    /// The text by which the status is reported.
    pub fn to_string(&self) -> (text: String)
        ensures
            text@ == self.text(),
    {
        match self {
            Status::StartingUp => "STARTING_UP".to_owned(),
            Status::Unhealthy => "UNHEALTHY".to_owned(),
            Status::Healthy => "OK".to_owned(),
        }
    }
}

/// What a health node reports.
pub struct HealthSpec {
    pub status: Seq<char>,
    pub message: Option<Seq<char>>,
}

/// The health of a program, as a node of its inspection tree.
#[derive(Debug)]
pub struct Node {
    node: InspectNode,
    status: StringProperty,
    message: Option<StringProperty>,
}

impl View for Node {
    type V = HealthSpec;

    closed spec fn view(&self) -> HealthSpec {
        HealthSpec {
            status: self.status.value@,
            message: match self.message {
                Some(property) => Some(property.value@),
                None => None,
            },
        }
    }
}

impl Node {
    #[verifier::type_invariant]
    spec fn well_formed(&self) -> bool {
        &&& self.status.key@ == STATUS_PROPERTY_KEY@
        &&& match self.message {
            Some(property) => property.key@ == MESSAGE_PROPERTY_KEY@,
            None => true,
        }
    }

    /// The names that lead to the health node in the inspection tree.
    pub closed spec fn names(&self) -> Seq<Seq<char>> {
        self.node.names()
    }

    /// A health node as a child of `parent`. It reports `STARTING_UP`, and goes
    /// on to do so until `set_ok` or `set_unhealthy` is called.
    pub fn new(parent: &InspectNode) -> (health: Node)
        ensures
            health.names() == parent.names().push(FUCHSIA_INSPECT_HEALTH@),
            health@ == (HealthSpec { status: Status::StartingUp.text(), message: None }),
    {
        let node = parent.create_child(FUCHSIA_INSPECT_HEALTH);
        let status = node.create_string(
            STATUS_PROPERTY_KEY,
            Status::StartingUp.to_string().as_str(),
        );
        Node { node, status, message: None }
    }

    /// Reports `OK`, with no message.
    pub fn set_ok(&mut self)
        ensures
            final(self).names() == old(self).names(),
            final(self)@ == (HealthSpec { status: Status::Healthy.text(), message: None }),
    {
        self.set_status_enum(Status::Healthy, None);
    }

    /// Reports `UNHEALTHY`, with a message that says why.
    pub fn set_unhealthy(&mut self, message: &str)
        ensures
            final(self).names() == old(self).names(),
            final(self)@ == (HealthSpec {
                status: Status::Unhealthy.text(),
                message: Some(message@),
            }),
    {
        self.set_status_enum(Status::Unhealthy, Some(message));
    }

    /// Reports one of the standard states. `UNHEALTHY` must come with a message.
    pub fn set_status_enum(&mut self, status: Status, message: Option<&str>)
        requires
            status != Status::Unhealthy || message is Some,
        ensures
            final(self).names() == old(self).names(),
            final(self)@ == (HealthSpec {
                status: status.text(),
                message: match message {
                    Some(text) => Some(text@),
                    None => None,
                },
            }),
    {
        self.set_status(status.to_string().as_str(), message);
    }

    /// Reports any status text, with or without a message. The standard states
    /// are better reported through `set_ok` and `set_unhealthy`.
    pub fn set_status(&mut self, status: &str, message: Option<&str>)
        ensures
            final(self).names() == old(self).names(),
            final(self)@ == (HealthSpec {
                status: status@,
                message: match message {
                    Some(text) => Some(text@),
                    None => None,
                },
            }),
    {
        proof {
            use_type_invariant(&*self);
        }
        let status_property = StringProperty {
            key: STATUS_PROPERTY_KEY.to_owned(),
            value: status.to_owned(),
        };
        self.status = status_property;
        match message {
            None => {
                self.message = None;
            },
            Some(text) => {
                self.message = Some(self.node.create_string(MESSAGE_PROPERTY_KEY, text));
            },
        }
    }

    /// The inspection node that holds the health report.
    pub fn node(&self) -> (node: &InspectNode)
        ensures
            node.names() == self.names(),
    {
        &self.node
    }

    /// The status that is reported.
    pub fn status(&self) -> (status: &StringProperty)
        ensures
            status.key@ == STATUS_PROPERTY_KEY@,
            status.value@ == self@.status,
    {
        proof {
            use_type_invariant(self);
        }
        &self.status
    }

    /// The message that is reported, if one is.
    pub fn message(&self) -> (message: Option<&StringProperty>)
        ensures
            match message {
                Some(property) => property.key@ == MESSAGE_PROPERTY_KEY@ && self@.message == Some(
                    property.value@,
                ),
                None => self@.message is None,
            },
    {
        proof {
            use_type_invariant(self);
        }
        match &self.message {
            Some(property) => Some(property),
            None => None,
        }
    }
}

} // verus!
