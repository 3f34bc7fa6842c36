//! The command words a request can carry.
use vstd::prelude::*;

use crate::keyword::{eq_ignore_case, matches_ignore_case};

verus! {

/// An IMAP command.
#[derive(Clone, Copy, Debug, PartialEq, Eq, Structural)]
pub enum Command {
    Capability,
    Noop,
    Logout,
    StartTls,
    Authenticate,
    Login,
    Enable,
    Select,
    Examine,
    Create,
    Delete,
    Rename,
    Subscribe,
    Unsubscribe,
    List,
    Lsub,
    Namespace,
    Status,
    Append,
    Idle,
    Check,
    Close,
    Unselect,
    Expunge,
    Search,
    Fetch,
    Store,
    Copy,
    Move,
    Id,
}

/// The command word `CAPABILITY`.
pub open spec fn cmd_capability() -> Seq<u8> {
    seq![67u8, 65u8, 80u8, 65u8, 66u8, 73u8, 76u8, 73u8, 84u8, 89u8]
}

/// The command word `NOOP`.
pub open spec fn cmd_noop() -> Seq<u8> {
    seq![78u8, 79u8, 79u8, 80u8]
}

/// The command word `LOGOUT`.
pub open spec fn cmd_logout() -> Seq<u8> {
    seq![76u8, 79u8, 71u8, 79u8, 85u8, 84u8]
}

/// The command word `STARTTLS`.
pub open spec fn cmd_starttls() -> Seq<u8> {
    seq![83u8, 84u8, 65u8, 82u8, 84u8, 84u8, 76u8, 83u8]
}

/// The command word `AUTHENTICATE`.
pub open spec fn cmd_authenticate() -> Seq<u8> {
    seq![65u8, 85u8, 84u8, 72u8, 69u8, 78u8, 84u8, 73u8, 67u8, 65u8, 84u8, 69u8]
}

/// The command word `LOGIN`.
pub open spec fn cmd_login() -> Seq<u8> {
    seq![76u8, 79u8, 71u8, 73u8, 78u8]
}

/// The command word `ENABLE`.
pub open spec fn cmd_enable() -> Seq<u8> {
    seq![69u8, 78u8, 65u8, 66u8, 76u8, 69u8]
}

/// The command word `SELECT`.
pub open spec fn cmd_select() -> Seq<u8> {
    seq![83u8, 69u8, 76u8, 69u8, 67u8, 84u8]
}

/// The command word `EXAMINE`.
pub open spec fn cmd_examine() -> Seq<u8> {
    seq![69u8, 88u8, 65u8, 77u8, 73u8, 78u8, 69u8]
}

/// The command word `CREATE`.
pub open spec fn cmd_create() -> Seq<u8> {
    seq![67u8, 82u8, 69u8, 65u8, 84u8, 69u8]
}

/// The command word `DELETE`.
pub open spec fn cmd_delete() -> Seq<u8> {
    seq![68u8, 69u8, 76u8, 69u8, 84u8, 69u8]
}

/// The command word `RENAME`.
pub open spec fn cmd_rename() -> Seq<u8> {
    seq![82u8, 69u8, 78u8, 65u8, 77u8, 69u8]
}

/// The command word `SUBSCRIBE`.
pub open spec fn cmd_subscribe() -> Seq<u8> {
    seq![83u8, 85u8, 66u8, 83u8, 67u8, 82u8, 73u8, 66u8, 69u8]
}

/// The command word `UNSUBSCRIBE`.
pub open spec fn cmd_unsubscribe() -> Seq<u8> {
    seq![85u8, 78u8, 83u8, 85u8, 66u8, 83u8, 67u8, 82u8, 73u8, 66u8, 69u8]
}

/// The command word `LIST`.
pub open spec fn cmd_list() -> Seq<u8> {
    seq![76u8, 73u8, 83u8, 84u8]
}

/// The command word `LSUB`.
pub open spec fn cmd_lsub() -> Seq<u8> {
    seq![76u8, 83u8, 85u8, 66u8]
}

/// The command word `NAMESPACE`.
pub open spec fn cmd_namespace() -> Seq<u8> {
    seq![78u8, 65u8, 77u8, 69u8, 83u8, 80u8, 65u8, 67u8, 69u8]
}

/// The command word `STATUS`.
pub open spec fn cmd_status() -> Seq<u8> {
    seq![83u8, 84u8, 65u8, 84u8, 85u8, 83u8]
}

/// The command word `APPEND`.
pub open spec fn cmd_append() -> Seq<u8> {
    seq![65u8, 80u8, 80u8, 69u8, 78u8, 68u8]
}

/// The command word `IDLE`.
pub open spec fn cmd_idle() -> Seq<u8> {
    seq![73u8, 68u8, 76u8, 69u8]
}

/// The command word `CHECK`.
pub open spec fn cmd_check() -> Seq<u8> {
    seq![67u8, 72u8, 69u8, 67u8, 75u8]
}

/// The command word `CLOSE`.
pub open spec fn cmd_close() -> Seq<u8> {
    seq![67u8, 76u8, 79u8, 83u8, 69u8]
}

/// The command word `UNSELECT`.
pub open spec fn cmd_unselect() -> Seq<u8> {
    seq![85u8, 78u8, 83u8, 69u8, 76u8, 69u8, 67u8, 84u8]
}

/// The command word `EXPUNGE`.
pub open spec fn cmd_expunge() -> Seq<u8> {
    seq![69u8, 88u8, 80u8, 85u8, 78u8, 71u8, 69u8]
}

/// The command word `SEARCH`.
pub open spec fn cmd_search() -> Seq<u8> {
    seq![83u8, 69u8, 65u8, 82u8, 67u8, 72u8]
}

/// The command word `FETCH`.
pub open spec fn cmd_fetch() -> Seq<u8> {
    seq![70u8, 69u8, 84u8, 67u8, 72u8]
}

/// The command word `STORE`.
pub open spec fn cmd_store() -> Seq<u8> {
    seq![83u8, 84u8, 79u8, 82u8, 69u8]
}

/// The command word `COPY`.
pub open spec fn cmd_copy() -> Seq<u8> {
    seq![67u8, 79u8, 80u8, 89u8]
}

/// The command word `MOVE`.
pub open spec fn cmd_move() -> Seq<u8> {
    seq![77u8, 79u8, 86u8, 69u8]
}

/// The command word `ID`.
pub open spec fn cmd_id() -> Seq<u8> {
    seq![73u8, 68u8]
}

/// The command that `word` names, ignoring ASCII case, if any.
pub open spec fn command_of(word: Seq<u8>) -> Option<Command> {
    if eq_ignore_case(word, cmd_capability()) {
        Some(Command::Capability)
    } else if eq_ignore_case(word, cmd_noop()) {
        Some(Command::Noop)
    } else if eq_ignore_case(word, cmd_logout()) {
        Some(Command::Logout)
    } else if eq_ignore_case(word, cmd_starttls()) {
        Some(Command::StartTls)
    } else if eq_ignore_case(word, cmd_authenticate()) {
        Some(Command::Authenticate)
    } else if eq_ignore_case(word, cmd_login()) {
        Some(Command::Login)
    } else if eq_ignore_case(word, cmd_enable()) {
        Some(Command::Enable)
    } else if eq_ignore_case(word, cmd_select()) {
        Some(Command::Select)
    } else if eq_ignore_case(word, cmd_examine()) {
        Some(Command::Examine)
    } else if eq_ignore_case(word, cmd_create()) {
        Some(Command::Create)
    } else if eq_ignore_case(word, cmd_delete()) {
        Some(Command::Delete)
    } else if eq_ignore_case(word, cmd_rename()) {
        Some(Command::Rename)
    } else if eq_ignore_case(word, cmd_subscribe()) {
        Some(Command::Subscribe)
    } else if eq_ignore_case(word, cmd_unsubscribe()) {
        Some(Command::Unsubscribe)
    } else if eq_ignore_case(word, cmd_list()) {
        Some(Command::List)
    } else if eq_ignore_case(word, cmd_lsub()) {
        Some(Command::Lsub)
    } else if eq_ignore_case(word, cmd_namespace()) {
        Some(Command::Namespace)
    } else if eq_ignore_case(word, cmd_status()) {
        Some(Command::Status)
    } else if eq_ignore_case(word, cmd_append()) {
        Some(Command::Append)
    } else if eq_ignore_case(word, cmd_idle()) {
        Some(Command::Idle)
    } else if eq_ignore_case(word, cmd_check()) {
        Some(Command::Check)
    } else if eq_ignore_case(word, cmd_close()) {
        Some(Command::Close)
    } else if eq_ignore_case(word, cmd_unselect()) {
        Some(Command::Unselect)
    } else if eq_ignore_case(word, cmd_expunge()) {
        Some(Command::Expunge)
    } else if eq_ignore_case(word, cmd_search()) {
        Some(Command::Search)
    } else if eq_ignore_case(word, cmd_fetch()) {
        Some(Command::Fetch)
    } else if eq_ignore_case(word, cmd_store()) {
        Some(Command::Store)
    } else if eq_ignore_case(word, cmd_copy()) {
        Some(Command::Copy)
    } else if eq_ignore_case(word, cmd_move()) {
        Some(Command::Move)
    } else if eq_ignore_case(word, cmd_id()) {
        Some(Command::Id)
    } else {
        None
    }
}

impl Command {
    /// Looks up the command that `word` spells, ignoring ASCII case.
    pub fn parse(word: &[u8]) -> (r: Option<Command>)
        ensures
            r == command_of(word@),
    {
        match word.len() {
            2 => {
                let w: Vec<u8> = vec![73u8, 68u8];
                assert(w@ == cmd_id());
                if matches_ignore_case(word, w.as_slice()) {
                    return Some(Command::Id);
                }
            },
            4 => {
                let w: Vec<u8> = vec![78u8, 79u8, 79u8, 80u8];
                assert(w@ == cmd_noop());
                if matches_ignore_case(word, w.as_slice()) {
                    return Some(Command::Noop);
                }
                let w: Vec<u8> = vec![76u8, 73u8, 83u8, 84u8];
                assert(w@ == cmd_list());
                if matches_ignore_case(word, w.as_slice()) {
                    return Some(Command::List);
                }
                let w: Vec<u8> = vec![76u8, 83u8, 85u8, 66u8];
                assert(w@ == cmd_lsub());
                if matches_ignore_case(word, w.as_slice()) {
                    return Some(Command::Lsub);
                }
                let w: Vec<u8> = vec![73u8, 68u8, 76u8, 69u8];
                assert(w@ == cmd_idle());
                if matches_ignore_case(word, w.as_slice()) {
                    return Some(Command::Idle);
                }
                let w: Vec<u8> = vec![67u8, 79u8, 80u8, 89u8];
                assert(w@ == cmd_copy());
                if matches_ignore_case(word, w.as_slice()) {
                    return Some(Command::Copy);
                }
                let w: Vec<u8> = vec![77u8, 79u8, 86u8, 69u8];
                assert(w@ == cmd_move());
                if matches_ignore_case(word, w.as_slice()) {
                    return Some(Command::Move);
                }
            },
            5 => {
                let w: Vec<u8> = vec![76u8, 79u8, 71u8, 73u8, 78u8];
                assert(w@ == cmd_login());
                if matches_ignore_case(word, w.as_slice()) {
                    return Some(Command::Login);
                }
                let w: Vec<u8> = vec![67u8, 72u8, 69u8, 67u8, 75u8];
                assert(w@ == cmd_check());
                if matches_ignore_case(word, w.as_slice()) {
                    return Some(Command::Check);
                }
                let w: Vec<u8> = vec![67u8, 76u8, 79u8, 83u8, 69u8];
                assert(w@ == cmd_close());
                if matches_ignore_case(word, w.as_slice()) {
                    return Some(Command::Close);
                }
                let w: Vec<u8> = vec![70u8, 69u8, 84u8, 67u8, 72u8];
                assert(w@ == cmd_fetch());
                if matches_ignore_case(word, w.as_slice()) {
                    return Some(Command::Fetch);
                }
                let w: Vec<u8> = vec![83u8, 84u8, 79u8, 82u8, 69u8];
                assert(w@ == cmd_store());
                if matches_ignore_case(word, w.as_slice()) {
                    return Some(Command::Store);
                }
            },
            6 => {
                let w: Vec<u8> = vec![76u8, 79u8, 71u8, 79u8, 85u8, 84u8];
                assert(w@ == cmd_logout());
                if matches_ignore_case(word, w.as_slice()) {
                    return Some(Command::Logout);
                }
                let w: Vec<u8> = vec![69u8, 78u8, 65u8, 66u8, 76u8, 69u8];
                assert(w@ == cmd_enable());
                if matches_ignore_case(word, w.as_slice()) {
                    return Some(Command::Enable);
                }
                let w: Vec<u8> = vec![83u8, 69u8, 76u8, 69u8, 67u8, 84u8];
                assert(w@ == cmd_select());
                if matches_ignore_case(word, w.as_slice()) {
                    return Some(Command::Select);
                }
                let w: Vec<u8> = vec![67u8, 82u8, 69u8, 65u8, 84u8, 69u8];
                assert(w@ == cmd_create());
                if matches_ignore_case(word, w.as_slice()) {
                    return Some(Command::Create);
                }
                let w: Vec<u8> = vec![68u8, 69u8, 76u8, 69u8, 84u8, 69u8];
                assert(w@ == cmd_delete());
                if matches_ignore_case(word, w.as_slice()) {
                    return Some(Command::Delete);
                }
                let w: Vec<u8> = vec![82u8, 69u8, 78u8, 65u8, 77u8, 69u8];
                assert(w@ == cmd_rename());
                if matches_ignore_case(word, w.as_slice()) {
                    return Some(Command::Rename);
                }
                let w: Vec<u8> = vec![83u8, 84u8, 65u8, 84u8, 85u8, 83u8];
                assert(w@ == cmd_status());
                if matches_ignore_case(word, w.as_slice()) {
                    return Some(Command::Status);
                }
                let w: Vec<u8> = vec![65u8, 80u8, 80u8, 69u8, 78u8, 68u8];
                assert(w@ == cmd_append());
                if matches_ignore_case(word, w.as_slice()) {
                    return Some(Command::Append);
                }
                let w: Vec<u8> = vec![83u8, 69u8, 65u8, 82u8, 67u8, 72u8];
                assert(w@ == cmd_search());
                if matches_ignore_case(word, w.as_slice()) {
                    return Some(Command::Search);
                }
            },
            7 => {
                let w: Vec<u8> = vec![69u8, 88u8, 65u8, 77u8, 73u8, 78u8, 69u8];
                assert(w@ == cmd_examine());
                if matches_ignore_case(word, w.as_slice()) {
                    return Some(Command::Examine);
                }
                let w: Vec<u8> = vec![69u8, 88u8, 80u8, 85u8, 78u8, 71u8, 69u8];
                assert(w@ == cmd_expunge());
                if matches_ignore_case(word, w.as_slice()) {
                    return Some(Command::Expunge);
                }
            },
            8 => {
                let w: Vec<u8> = vec![83u8, 84u8, 65u8, 82u8, 84u8, 84u8, 76u8, 83u8];
                assert(w@ == cmd_starttls());
                if matches_ignore_case(word, w.as_slice()) {
                    return Some(Command::StartTls);
                }
                let w: Vec<u8> = vec![85u8, 78u8, 83u8, 69u8, 76u8, 69u8, 67u8, 84u8];
                assert(w@ == cmd_unselect());
                if matches_ignore_case(word, w.as_slice()) {
                    return Some(Command::Unselect);
                }
            },
            9 => {
                let w: Vec<u8> = vec![83u8, 85u8, 66u8, 83u8, 67u8, 82u8, 73u8, 66u8, 69u8];
                assert(w@ == cmd_subscribe());
                if matches_ignore_case(word, w.as_slice()) {
                    return Some(Command::Subscribe);
                }
                let w: Vec<u8> = vec![78u8, 65u8, 77u8, 69u8, 83u8, 80u8, 65u8, 67u8, 69u8];
                assert(w@ == cmd_namespace());
                if matches_ignore_case(word, w.as_slice()) {
                    return Some(Command::Namespace);
                }
            },
            10 => {
                let w: Vec<u8> = vec![67u8, 65u8, 80u8, 65u8, 66u8, 73u8, 76u8, 73u8, 84u8, 89u8];
                assert(w@ == cmd_capability());
                if matches_ignore_case(word, w.as_slice()) {
                    return Some(Command::Capability);
                }
            },
            11 => {
                let w: Vec<u8> = vec![85u8, 78u8, 83u8, 85u8, 66u8, 83u8, 67u8, 82u8, 73u8, 66u8, 69u8];
                assert(w@ == cmd_unsubscribe());
                if matches_ignore_case(word, w.as_slice()) {
                    return Some(Command::Unsubscribe);
                }
            },
            12 => {
                let w: Vec<u8> = vec![65u8, 85u8, 84u8, 72u8, 69u8, 78u8, 84u8, 73u8, 67u8, 65u8, 84u8, 69u8];
                assert(w@ == cmd_authenticate());
                if matches_ignore_case(word, w.as_slice()) {
                    return Some(Command::Authenticate);
                }
            },
            _ => {},
        }
        None
    }
}

} // verus!
