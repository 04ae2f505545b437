use vstd::prelude::*;

use crate::client::Client;
use crate::cloud::Cloud;
use crate::current_process::CurrentProcess;
use crate::new_session::NewSession;
use crate::process_error::ProcessError;
use crate::tab::Tab;
use crate::text::{lemma_lex_total, lemma_lex_trans, lex_lt, str_lt};

verus! {

/// Whether the client map holds an entry under that account name.
pub open spec fn has_client(cs: Seq<(String, Client)>, n: Seq<char>) -> bool {
    exists|i: int| 0 <= i < cs.len() && cs[i].0@ == n
}

/// The index of the entry of that account name, when one exists.
pub open spec fn client_idx(cs: Seq<(String, Client)>, n: Seq<char>) -> int {
    choose|i: int| 0 <= i < cs.len() && cs[i].0@ == n
}

/// Pairwise distinct account names.
pub open spec fn unique_client_keys(cs: Seq<(String, Client)>) -> bool {
    forall|i: int, j: int| 0 <= i < j < cs.len() ==> cs[i].0@ != cs[j].0@
}

/// Position `k` bears the lexicographically first account name.
pub open spec fn is_first_key(cs: Seq<(String, Client)>, k: int) -> bool {
    &&& 0 <= k < cs.len()
    &&& forall|j: int| 0 <= j < cs.len() && j != k ==> lex_lt(cs[k].0@, cs[j].0@)
}

/// The authoritative state owned by the single-threaded foreground loop:
/// the connected clients keyed by username, the account being browsed, the
/// active view, the single process-state slot, and the two views' states.
#[derive(Debug)]
pub struct Window {
    pub clients: Vec<(String, Client)>,
    pub current_client: String,
    pub tab: Tab,
    pub current_process: CurrentProcess,
    pub new_session_tab: NewSession,
    pub cloud_tab: Cloud,
}

impl Window {
    /// Client keys are pairwise distinct, and the browsing state is well
    /// formed.
    pub open spec fn wf(self) -> bool {
        &&& unique_client_keys(self.clients@)
        &&& self.cloud_tab.wf()
    }

    /// The initial state: no clients, no current account, the browsing view
    /// active, the process slot idle, and both views' forms blank.
    pub fn new() -> (r: Self)
        ensures
            r.clients@ == Seq::<(String, Client)>::empty(),
            r.current_client@ == Seq::<char>::empty(),
            r.tab == Tab::Cloud,
            r.current_process == CurrentProcess::Idle,
            r.new_session_tab.new_session_name@ == Seq::<char>::empty(),
            r.new_session_tab.phone_number@ == Seq::<char>::empty(),
            r.new_session_tab.reveived_code@ == Seq::<char>::empty(),
            r.new_session_tab.user_password@ == Seq::<char>::empty(),
            r.new_session_tab.is_code_received == false,
            r.new_session_tab.has_login_token == false,
            r.new_session_tab.incomplete_client is None,
            r.cloud_tab.clients_roots@ == Seq::<(String, crate::dir::Dir)>::empty(),
            r.cloud_tab.current_path.raw() == seq!['/'],
            r.cloud_tab.current_path.comps() == Seq::<Seq<char>>::empty(),
            r.cloud_tab.current_path.wf(),
            r.cloud_tab.is_creating_folder == false,
            r.cloud_tab.new_dir_name@ == Seq::<char>::empty(),
            r.wf(),
    {
        Self {
            clients: Vec::new(),
            current_client: String::new(),
            tab: Tab::Cloud,
            current_process: CurrentProcess::Idle,
            new_session_tab: NewSession::new(),
            cloud_tab: Cloud::new(),
        }
    }

    /// The position of the entry of that account name, if any.
    pub fn find_client_index(&self, name: &String) -> (r: Option<usize>)
        ensures
            match r {
                Some(k) => k < self.clients@.len() && self.clients@[k as int].0@ == name@,
                None => !has_client(self.clients@, name@),
            },
    {
        find_client_entry(&self.clients, name)
    }

    /// A copy of the client of the current account, or the failure that no
    /// current account is set.
    pub fn get_current_client(&self) -> (r: Result<Client, ProcessError>)
        requires
            self.wf(),
        ensures
            match r {
                Ok(c) => has_client(self.clients@, self.current_client@) && c
                    == self.clients@[client_idx(self.clients@, self.current_client@)].1,
                Err(e) => !has_client(self.clients@, self.current_client@) && e
                    == ProcessError::CurrentClientIsNone,
            },
    {
        let name = self.current_client.clone();
        match self.find_client_index(&name) {
            Some(k) => {
                proof {
                    assert(has_client(self.clients@, self.current_client@));
                    let i = client_idx(self.clients@, self.current_client@);
                    assert(0 <= i < self.clients@.len() && self.clients@[i].0@
                        == self.current_client@);
                    if i != k as int {
                        if i < k as int {
                            assert(self.clients@[i].0@ != self.clients@[k as int].0@);
                        } else {
                            assert(self.clients@[k as int].0@ != self.clients@[i].0@);
                        }
                    }
                    assert(i == k as int);
                }
                Ok(self.clients[k].1.clone())
            },
            None => Err(ProcessError::CurrentClientIsNone),
        }
    }

    /// Inserts a client under an account name, replacing any client that
    /// name already had.
    pub fn insert_client(&mut self, name: String, client: Client)
        requires
            old(self).wf(),
        ensures
            final(self).wf(),
            final(self).current_client == old(self).current_client,
            final(self).tab == old(self).tab,
            final(self).current_process == old(self).current_process,
            final(self).new_session_tab == old(self).new_session_tab,
            final(self).cloud_tab == old(self).cloud_tab,
            if has_client(old(self).clients@, name@) {
                final(self).clients@ == old(self).clients@.update(
                    client_idx(old(self).clients@, name@),
                    (name, client),
                )
            } else {
                final(self).clients@ == old(self).clients@.push((name, client))
            },
    {
        upsert_client_entry(&mut self.clients, name, client);
    }
}

/// The position of the entry of that account name in a client map, if any.
pub fn find_client_entry(clients: &Vec<(String, Client)>, name: &String) -> (r: Option<usize>)
    ensures
        match r {
            Some(k) => k < clients@.len() && clients@[k as int].0@ == name@,
            None => !has_client(clients@, name@),
        },
{
    let mut j: usize = 0;
    while j < clients.len()
        invariant
            j <= clients@.len(),
            forall|t: int| 0 <= t < j ==> clients@[t].0@ != name@,
        decreases clients@.len() - j,
    {
        if clients[j].0 == *name {
            return Some(j);
        }
        j = j + 1;
    }
    None
}

/// Inserts an entry into a client map under an account name, replacing any
/// entry that name already had: this is how a map keyed by username is
/// built, one authenticated session at a time, with the keys staying
/// pairwise distinct.
pub fn upsert_client_entry(clients: &mut Vec<(String, Client)>, name: String, client: Client)
    requires
        unique_client_keys(old(clients)@),
    ensures
        unique_client_keys(final(clients)@),
        if has_client(old(clients)@, name@) {
            final(clients)@ == old(clients)@.update(
                client_idx(old(clients)@, name@),
                (name, client),
            )
        } else {
            final(clients)@ == old(clients)@.push((name, client))
        },
{
    let ghost pre = clients@;
    match find_client_entry(clients, &name) {
        Some(j) => {
            proof {
                assert(pre[j as int].0@ == name@);
                assert(has_client(pre, name@));
                assert forall|t: int| 0 <= t < pre.len() && pre[t].0@ == name@ implies t
                    == j as int by {
                    if (j as int) < t {
                        assert(pre[j as int].0@ != pre[t].0@);
                    }
                }
                assert(client_idx(pre, name@) == j as int);
            }
            clients[j] = (name, client);
            proof {
                assert forall|a: int, b: int| 0 <= a < b < clients@.len() implies clients@[a].0@
                    != clients@[b].0@ by {
                    assert(clients@[a].0@ == pre[a].0@ || a == j as int);
                    assert(clients@[b].0@ == pre[b].0@ || b == j as int);
                }
            }
        },
        None => {
            clients.push((name, client));
            proof {
                assert forall|a: int, b: int| 0 <= a < b < clients@.len() implies clients@[a].0@
                    != clients@[b].0@ by {
                    if b == pre.len() as int {
                        assert(clients@[a].0@ == pre[a].0@);
                        if pre[a].0@ == name@ {
                            assert(has_client(pre, name@));
                        }
                    }
                }
            }
        },
    }
}

/// The position of the lexicographically first account name in a non-empty
/// client map.
pub fn min_client_index(clients: &Vec<(String, Client)>) -> (r: usize)
    requires
        clients@.len() > 0,
        unique_client_keys(clients@),
    ensures
        is_first_key(clients@, r as int),
{
    let mut best: usize = 0;
    let mut j: usize = 1;
    while j < clients.len()
        invariant
            best < j,
            j <= clients@.len(),
            unique_client_keys(clients@),
            forall|t: int|
                0 <= t < j && t != best as int ==> lex_lt(
                    clients@[best as int].0@,
                    #[trigger] clients@[t].0@,
                ),
        decreases clients@.len() - j,
    {
        let ghost old_best = best as int;
        if str_lt(clients[j].0.as_str(), clients[best].0.as_str()) {
            best = j;
            proof {
                assert forall|t: int|
                    0 <= t < j as int + 1 && t != best as int implies lex_lt(
                    clients@[best as int].0@,
                    #[trigger] clients@[t].0@,
                ) by {
                    if t == old_best {
                    } else {
                        lemma_lex_trans(
                            clients@[best as int].0@,
                            clients@[old_best].0@,
                            clients@[t].0@,
                        );
                    }
                }
            }
        } else {
            proof {
                if old_best < j as int {
                    assert(clients@[old_best].0@ != clients@[j as int].0@);
                } else {
                    assert(clients@[j as int].0@ != clients@[old_best].0@);
                }
                lemma_lex_total(clients@[old_best].0@, clients@[j as int].0@);
            }
        }
        j = j + 1;
    }
    best
}

} // verus!
