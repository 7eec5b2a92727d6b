use vstd::prelude::*;
use vstd::string::*;

verus! {

/// Author of a message. The enumeration is closed: text that names no role
/// is read as `User`.
#[derive(Debug, Clone, Copy, PartialEq, Eq, Structural)]
pub enum Role {
    User,
    Assistant,
    System,
}

impl Role {
    /// The lower-case name under which a role is written.
    pub open spec fn name(self) -> Seq<char> {
        match self {
            Role::User => "user"@,
            Role::Assistant => "assistant"@,
            Role::System => "system"@,
        }
    }

    /// Whether `text` is the name of one of the three roles.
    pub open spec fn is_known(text: Seq<char>) -> bool {
        text == "user"@ || text == "assistant"@ || text == "system"@
    }

    /// The role that `text` stands for: the role of that name, and `User`
    /// for every other text.
    pub open spec fn coerce(text: Seq<char>) -> Role {
        if text == "assistant"@ {
            Role::Assistant
        } else if text == "system"@ {
            Role::System
        } else {
            Role::User
        }
    }

    /// The three names differ from one another.
    pub proof fn lemma_names_distinct()
        ensures
            "user"@ != "assistant"@,
            "user"@ != "system"@,
            "assistant"@ != "system"@,
    {
        reveal_strlit("user");
        reveal_strlit("assistant");
        reveal_strlit("system");
        assert("user"@.len() == 4);
        assert("assistant"@.len() == 9);
        assert("system"@.len() == 6);
    }

    /// The role's name.
    pub fn as_str(&self) -> (name: &'static str)
        ensures
            name@ == self.name(),
    {
        match self {
            Role::User => "user",
            Role::Assistant => "assistant",
            Role::System => "system",
        }
    }

    /// The role's name as an owned string.
    pub fn to_string(&self) -> (name: String)
        ensures
            name@ == self.name(),
    {
        self.as_str().to_owned()
    }

    /// Reads a role leniently and reports whether the text had to be
    /// coerced: the flag is set exactly when `text` names no role, in which
    /// case the role is `User`.
    pub fn parse_lenient(text: &str) -> (parsed: (Role, bool))
        ensures
            parsed.0 == Role::coerce(text@),
            parsed.1 == !Role::is_known(text@),
    {
        proof {
            Role::lemma_names_distinct();
        }
        let owned = text.to_owned();
        if owned == "user".to_owned() {
            (Role::User, false)
        } else if owned == "assistant".to_owned() {
            (Role::Assistant, false)
        } else if owned == "system".to_owned() {
            (Role::System, false)
        } else {
            (Role::User, true)
        }
    }
}

impl From<&str> for Role {
    fn from(text: &str) -> (role: Role) {
        Role::parse_lenient(text).0
    }
}

impl vstd::std_specs::convert::FromSpecImpl<&str> for Role {
    open spec fn obeys_from_spec() -> bool {
        true
    }

    open spec fn from_spec(text: &str) -> Role {
        Role::coerce(text@)
    }
}

impl From<String> for Role {
    fn from(text: String) -> (role: Role) {
        Role::parse_lenient(text.as_str()).0
    }
}

impl vstd::std_specs::convert::FromSpecImpl<String> for Role {
    open spec fn obeys_from_spec() -> bool {
        true
    }

    open spec fn from_spec(text: String) -> Role {
        Role::coerce(text@)
    }
}

impl From<Option<String>> for Role {
    fn from(text: Option<String>) -> (role: Role) {
        match text {
            Some(text) => Role::parse_lenient(text.as_str()).0,
            None => Role::User,
        }
    }
}

impl vstd::std_specs::convert::FromSpecImpl<Option<String>> for Role {
    open spec fn obeys_from_spec() -> bool {
        true
    }

    open spec fn from_spec(text: Option<String>) -> Role {
        match text {
            Some(text) => Role::coerce(text@),
            None => Role::User,
        }
    }
}

impl core::str::FromStr for Role {
    type Err = core::convert::Infallible;

    /// Never fails: see `parse_lenient`, which also reports the coercion.
    fn from_str(text: &str) -> (parsed: Result<Role, core::convert::Infallible>)
        ensures
            parsed matches Ok(role) && role == Role::coerce(text@),
    {
        Ok(Role::parse_lenient(text).0)
    }
}

} // verus!
