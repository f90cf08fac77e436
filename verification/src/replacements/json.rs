//! A JSON value as far as the replacement tables read one.

use vstd::prelude::*;
use vstd::string::StringExecFns;

verus! {

/// A JSON value, held as what can be asked of it: its text, the integer or
/// the truth value that it is, and the members that it has as an object.
#[derive(Debug, PartialEq, Eq)]
pub struct JsonValue {
    /// The value as compact JSON text.
    pub text: String,
    /// The value as a 64-bit signed integer, when it is a number that fits.
    pub as_i64: Option<i64>,
    /// The value as a truth value, when it is `true` or `false`.
    pub as_bool: Option<bool>,
    /// The members in the order in which the object yields them, when the
    /// value is an object.
    pub entries: Option<Vec<(String, JsonValue)>>,
}

/// Index of the first of the first `n` members that is named `name`.
pub open spec fn first_named(members: Seq<(String, JsonValue)>, name: Seq<char>, n: nat) -> Option<
    int,
>
    decreases n,
{
    if n == 0 {
        None
    } else {
        match first_named(members, name, (n - 1) as nat) {
            Some(i) => Some(i),
            None => if members[n - 1].0@ == name {
                Some(n - 1)
            } else {
                None
            },
        }
    }
}

impl JsonValue {
    /// Whether the value is an object.
    pub open spec fn spec_is_object(self) -> bool {
        self.entries is Some
    }

    /// The member named `name`; none when the value is no object or has no
    /// such member.
    pub open spec fn spec_member(self, name: Seq<char>) -> Option<JsonValue> {
        match self.entries {
            Some(members) => match first_named(members@, name, members@.len()) {
                Some(i) => Some(members@[i].1),
                None => None,
            },
            None => None,
        }
    }

    /// The text of the member named `name`, or `null` in its absence.
    pub open spec fn member_text(self, name: Seq<char>) -> Seq<char> {
        match self.spec_member(name) {
            Some(v) => v.text@,
            None => "null"@,
        }
    }

    /// The member named `name` as an integer, if there is one and it is one.
    pub open spec fn member_i64(self, name: Seq<char>) -> Option<i64> {
        match self.spec_member(name) {
            Some(v) => v.as_i64,
            None => None,
        }
    }

    /// The member named `name` as a truth value, if there is one and it is one.
    pub open spec fn member_bool(self, name: Seq<char>) -> Option<bool> {
        match self.spec_member(name) {
            Some(v) => v.as_bool,
            None => None,
        }
    }

    /// The members of the object that is the member named `name`, each as
    /// its name and its text; none when that member is absent or no object.
    pub open spec fn member_object(self, name: Seq<char>) -> Seq<(Seq<char>, Seq<char>)> {
        match self.spec_member(name) {
            Some(v) => match v.entries {
                Some(members) => Seq::new(
                    members@.len(),
                    |i: int| (members@[i].0@, members@[i].1.text@),
                ),
                None => Seq::empty(),
            },
            None => Seq::empty(),
        }
    }

    /// Whether the value is an object.
    pub fn is_object(&self) -> (b: bool)
        ensures
            b == self.spec_is_object(),
    {
        self.entries.is_some()
    }

    /// The member named `name`, if the value is an object that has one.
    pub fn member(&self, name: &str) -> (r: Option<&JsonValue>)
        ensures
            match r {
                Some(v) => self.spec_member(name@) == Some(*v),
                None => self.spec_member(name@) is None,
            },
    {
        match &self.entries {
            None => None,
            Some(members) => {
                let wanted: String = String::from_str(name);
                let mut index: usize = 0;
                while index < members.len()
                    invariant
                        index <= members@.len(),
                        self.entries == Some(*members),
                        wanted@ == name@,
                        first_named(members@, name@, index as nat) is None,
                    decreases members@.len() - index,
                {
                    if members[index].0 == wanted {
                        proof {
                            lemma_first_named_found(members@, name@, index as int, members@.len());
                        }
                        return Some(&members[index].1);
                    }
                    index += 1;
                }
                None
            },
        }
    }
}

/// Once a member named `name` is found with none before it, it stays the
/// first however many members follow.
pub proof fn lemma_first_named_found(
    members: Seq<(String, JsonValue)>,
    name: Seq<char>,
    at: int,
    n: nat,
)
    requires
        0 <= at < n,
        first_named(members, name, at as nat) is None,
        members[at].0@ == name,
    ensures
        first_named(members, name, n) == Some(at),
    decreases n,
{
    if n > at + 1 {
        lemma_first_named_found(members, name, at, (n - 1) as nat);
    }
}

} // verus!
