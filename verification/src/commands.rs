//! Set-membership commands for the downstream CRDT-backed store.

use vstd::prelude::*;
use vstd::string::StringExecFns;

verus! {

/// One outbound command: add a member to, or remove a member from, the set
/// stored under a key.
#[derive(Debug, PartialEq, Eq)]
pub enum CRDTCommand {
    SetAdd(String, String),
    SetRemove(String, String),
}

/// Mathematical view of a [`CRDTCommand`].
pub enum CommandModel {
    Add { key: Seq<char>, member: Seq<char> },
    Remove { key: Seq<char>, member: Seq<char> },
}

impl View for CRDTCommand {
    type V = CommandModel;

    open spec fn view(&self) -> CommandModel {
        match self {
            CRDTCommand::SetAdd(key, member) => CommandModel::Add { key: key@, member: member@ },
            CRDTCommand::SetRemove(key, member) => CommandModel::Remove {
                key: key@,
                member: member@,
            },
        }
    }
}

/// The namespaced key: `"{prefix}:{key}"` when a prefix is configured,
/// else the key alone.
pub open spec fn prefixed_key(prefix: Option<Seq<char>>, key: Seq<char>) -> Seq<char> {
    match prefix {
        Some(p) => p + seq![':'] + key,
        None => key,
    }
}

/// The view of an optional borrowed string.
pub open spec fn opt_str_view(s: Option<&str>) -> Option<Seq<char>> {
    match s {
        Some(p) => Some(p@),
        None => None,
    }
}

fn build_key(prefix: Option<&str>, key: &str) -> (r: String)
    ensures
        r@ == prefixed_key(opt_str_view(prefix), key@),
{
    match prefix {
        Some(p) => {
            let r = p.to_owned().concat(":").concat(key);
            proof {
                reveal_strlit(":");
                assert(r@ =~= p@ + seq![':'] + key@);
            }
            r
        },
        None => key.to_owned(),
    }
}

impl CRDTCommand {
    /// An ADD of `member` under the namespaced form of `key`.
    pub fn set_add(prefix: Option<&str>, key: &str, member: String) -> (r: CRDTCommand)
        ensures
            r@ == (CommandModel::Add {
                key: prefixed_key(opt_str_view(prefix), key@),
                member: member@,
            }),
    {
        CRDTCommand::SetAdd(build_key(prefix, key), member)
    }

    /// A REMOVE of `member` under the namespaced form of `key`.
    pub fn set_remove(prefix: Option<&str>, key: &str, member: String) -> (r: CRDTCommand)
        ensures
            r@ == (CommandModel::Remove {
                key: prefixed_key(opt_str_view(prefix), key@),
                member: member@,
            }),
    {
        CRDTCommand::SetRemove(build_key(prefix, key), member)
    }

    /// The key the command addresses.
    pub fn key(&self) -> (r: &String)
        ensures
            r@ == match self@ {
                CommandModel::Add { key, .. } => key,
                CommandModel::Remove { key, .. } => key,
            },
    {
        match self {
            CRDTCommand::SetAdd(key, _) => key,
            CRDTCommand::SetRemove(key, _) => key,
        }
    }

    /// The member the command carries.
    pub fn member(&self) -> (r: &String)
        ensures
            r@ == match self@ {
                CommandModel::Add { member, .. } => member,
                CommandModel::Remove { member, .. } => member,
            },
    {
        match self {
            CRDTCommand::SetAdd(_, member) => member,
            CRDTCommand::SetRemove(_, member) => member,
        }
    }

    /// Whether the command is an ADD.
    pub fn is_add(&self) -> (r: bool)
        ensures
            r == (self@ is Add),
    {
        match self {
            CRDTCommand::SetAdd(..) => true,
            CRDTCommand::SetRemove(..) => false,
        }
    }
}

} // verus!
