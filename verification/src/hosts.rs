//! Saved hosts: the list of hosts the user can connect to, kept by label.
//!
//! Loading and saving the list is the caller's business; this module holds
//! the list's rules: adding or replacing a host by label, and deleting one.
use vstd::prelude::*;

verus! {

/// A saved host.
#[derive(Clone, Debug)]
pub struct SavedHost {
    pub label: String,
    pub host: String,
    pub port: u16,
    pub username: String,
    /// The auth data.
    pub auth: SavedAuth,
    /// Remote directory to open on connect.
    pub start_path: Option<String>,
}

/// How a saved host authenticates.
#[derive(Clone, Debug)]
pub enum SavedAuth {
    Password(String),
    KeyFile { path: String, passphrase: Option<String> },
}

/// A saved host as plain values.
pub struct SavedHostView {
    pub label: Seq<char>,
    pub host: Seq<char>,
    pub port: u16,
    pub username: Seq<char>,
    pub auth: SavedAuthView,
    pub start_path: Option<Seq<char>>,
}

/// How a saved host authenticates, as plain values.
pub enum SavedAuthView {
    Password(Seq<char>),
    KeyFile { path: Seq<char>, passphrase: Option<Seq<char>> },
}

/// An optional string as plain values.
pub open spec fn opt_view(s: Option<String>) -> Option<Seq<char>> {
    match s {
        Some(t) => Some(t@),
        None => None,
    }
}

impl View for SavedAuth {
    type V = SavedAuthView;

    open spec fn view(&self) -> SavedAuthView {
        match self {
            SavedAuth::Password(p) => SavedAuthView::Password(p@),
            SavedAuth::KeyFile { path, passphrase } => SavedAuthView::KeyFile {
                path: path@,
                passphrase: opt_view(*passphrase),
            },
        }
    }
}

impl View for SavedHost {
    type V = SavedHostView;

    open spec fn view(&self) -> SavedHostView {
        SavedHostView {
            label: self.label@,
            host: self.host@,
            port: self.port,
            username: self.username@,
            auth: self.auth@,
            start_path: opt_view(self.start_path),
        }
    }
}

impl SavedHost {
    /// The remote directory a connection to this host opens on: its start
    /// path, or `/` when it has none.
    pub fn start_remote_path(&self) -> (r: String)
        ensures
            r@ == match self.start_path {
                Some(p) => p@,
                None => "/"@,
            },
    {
        match &self.start_path {
            Some(p) => p.clone(),
            None => String::from_str("/"),
        }
    }
}

/// The index of the first host with the given label.
pub open spec fn first_with_label(hosts: Seq<SavedHost>, label: Seq<char>) -> Option<int>
    decreases hosts.len(),
{
    if hosts.len() == 0 {
        None
    } else if hosts[0].label@ == label {
        Some(0)
    } else {
        match first_with_label(hosts.drop_first(), label) {
            Some(i) => Some(i + 1),
            None => None,
        }
    }
}

/// The list after adding `new_host`: it replaces the first host with the same
/// label, or goes at the end when no host has that label.
pub open spec fn upsert_spec(hosts: Seq<SavedHost>, new_host: SavedHost) -> Seq<SavedHost> {
    match first_with_label(hosts, new_host.label@) {
        Some(i) => hosts.update(i, new_host),
        None => hosts.push(new_host),
    }
}

/// The list without the hosts of the given label.
pub open spec fn delete_spec(hosts: Seq<SavedHost>, label: Seq<char>) -> Seq<SavedHost> {
    hosts.filter(|h: SavedHost| h.label@ != label)
}

/// The hosts of the given label, in order.
pub open spec fn with_label(hosts: Seq<SavedHost>, label: Seq<char>) -> Seq<SavedHost> {
    hosts.filter(|h: SavedHost| h.label@ == label)
}

/// Whether no two hosts share a label.
pub open spec fn labels_unique(hosts: Seq<SavedHost>) -> bool {
    forall|i: int, j: int|
        0 <= i < hosts.len() && 0 <= j < hosts.len() && i != j ==> hosts[i].label@
            != hosts[j].label@
}

pub proof fn lemma_first_with_label(hosts: Seq<SavedHost>, label: Seq<char>)
    ensures
        match first_with_label(hosts, label) {
            Some(i) => 0 <= i < hosts.len() && hosts[i].label@ == label && forall|k: int|
                0 <= k < i ==> hosts[k].label@ != label,
            None => forall|k: int| 0 <= k < hosts.len() ==> hosts[k].label@ != label,
        },
    decreases hosts.len(),
{
    if hosts.len() > 0 && hosts[0].label@ != label {
        lemma_first_with_label(hosts.drop_first(), label);
        assert forall|k: int| 0 < k < hosts.len() implies hosts[k] == hosts.drop_first()[k
            - 1] by {}
    }
}

proof fn lemma_first_with_label_of(hosts: Seq<SavedHost>, label: Seq<char>, i: int)
    requires
        0 <= i < hosts.len(),
        hosts[i].label@ == label,
        forall|k: int| 0 <= k < i ==> hosts[k].label@ != label,
    ensures
        first_with_label(hosts, label) == Some(i),
    decreases i,
{
    if i > 0 {
        lemma_first_with_label_of(hosts.drop_first(), label, i - 1);
    }
}

proof fn lemma_first_with_label_none(hosts: Seq<SavedHost>, label: Seq<char>)
    requires
        forall|k: int| 0 <= k < hosts.len() ==> hosts[k].label@ != label,
    ensures
        first_with_label(hosts, label) is None,
    decreases hosts.len(),
{
    if hosts.len() > 0 {
        lemma_first_with_label_none(hosts.drop_first(), label);
    }
}

/// Add or replace (by label) a saved host.
pub fn upsert_host(hosts: Vec<SavedHost>, new_host: SavedHost) -> (r: Vec<SavedHost>)
    ensures
        r@ == upsert_spec(hosts@, new_host),
{
    let mut list = hosts;
    let mut i: usize = 0;
    while i < list.len()
        invariant
            list@ == hosts@,
            i <= list.len(),
            forall|k: int| 0 <= k < i ==> list@[k].label@ != new_host.label@,
        decreases list.len() - i,
    {
        if list[i].label == new_host.label {
            proof {
                lemma_first_with_label_of(list@, new_host.label@, i as int);
            }
            list.set(i, new_host);
            return list;
        }
        i = i + 1;
    }
    proof {
        lemma_first_with_label_none(list@, new_host.label@);
    }
    list.push(new_host);
    list
}

/// Delete every saved host with the given label.
pub fn delete_host(hosts: Vec<SavedHost>, label: &str) -> (r: Vec<SavedHost>)
    ensures
        r@ == delete_spec(hosts@, label@),
{
    let ghost src = hosts@;
    let ghost pred = |h: SavedHost| h.label@ != label@;
    let label = String::from_str(label);
    let mut kept: Vec<SavedHost> = Vec::new();
    let mut rest = hosts;
    let mut i: usize = 0;
    let n = rest.len();
    proof {
        reveal(Seq::filter);
        assert(n == src.len());
        assert(src.take(0) =~= Seq::<SavedHost>::empty());
        assert(rest@ =~= src.skip(0));
    }
    while rest.len() > 0
        invariant
            src.len() <= usize::MAX,
            i + rest@.len() == src.len(),
            rest@ == src.skip(i as int),
            pred == (|h: SavedHost| h.label@ != label@),
            kept@ == src.take(i as int).filter(pred),
        decreases rest.len(),
    {
        let ghost rest_before = rest@;
        let h = rest.remove(0);
        proof {
            reveal(Seq::filter);
            assert(src[i as int] == h) by {
                assert(rest_before[0] == src.skip(i as int)[0]);
            }
            assert(src.take(i + 1).drop_last() =~= src.take(i as int));
            assert(rest@ =~= src.skip(i + 1));
        }
        if h.label != label {
            kept.push(h);
        }
        i = i + 1;
    }
    proof {
        assert(src.take(i as int) =~= src);
    }
    kept
}

/// After adding a host, the host found under its label is that host.
pub proof fn law_upsert_then_find(hosts: Seq<SavedHost>, new_host: SavedHost)
    ensures
        ({
            let after = upsert_spec(hosts, new_host);
            match first_with_label(after, new_host.label@) {
                Some(j) => after[j] == new_host,
                None => false,
            }
        }),
{
    let after = upsert_spec(hosts, new_host);
    lemma_first_with_label(hosts, new_host.label@);
    match first_with_label(hosts, new_host.label@) {
        Some(i) => {
            assert forall|k: int| 0 <= k < i implies after[k].label@ != new_host.label@ by {
                assert(after[k] == hosts[k]);
            }
            lemma_first_with_label_of(after, new_host.label@, i);
        },
        None => {
            assert forall|k: int| 0 <= k < hosts.len() implies after[k].label@
                != new_host.label@ by {
                assert(after[k] == hosts[k]);
            }
            lemma_first_with_label_of(after, new_host.label@, hosts.len() as int);
        },
    }
}

/// Adding a host leaves the host found under every other label as it was.
pub proof fn law_upsert_keeps_others(hosts: Seq<SavedHost>, new_host: SavedHost, label: Seq<char>)
    requires
        label != new_host.label@,
    ensures
        ({
            let after = upsert_spec(hosts, new_host);
            match first_with_label(hosts, label) {
                Some(i) => first_with_label(after, label) == Some(i) && after[i] == hosts[i],
                None => first_with_label(after, label) is None,
            }
        }),
{
    let after = upsert_spec(hosts, new_host);
    lemma_first_with_label(hosts, new_host.label@);
    lemma_first_with_label(hosts, label);
    assert forall|k: int| 0 <= k < after.len() implies (after[k].label@ == label <==> (k
        < hosts.len() && hosts[k].label@ == label)) by {
        if k < hosts.len() && after[k] != hosts[k] {
            assert(after[k] == new_host);
        }
    }
    match first_with_label(hosts, label) {
        Some(i) => {
            lemma_first_with_label_of(after, label, i);
        },
        None => {
            lemma_first_with_label_none(after, label);
        },
    }
}

/// Adding or replacing by label keeps labels unique.
pub proof fn law_upsert_keeps_labels_unique(hosts: Seq<SavedHost>, new_host: SavedHost)
    requires
        labels_unique(hosts),
    ensures
        labels_unique(upsert_spec(hosts, new_host)),
{
    let after = upsert_spec(hosts, new_host);
    lemma_first_with_label(hosts, new_host.label@);
    match first_with_label(hosts, new_host.label@) {
        Some(i) => {
            assert forall|a: int, b: int|
                0 <= a < after.len() && 0 <= b < after.len() && a != b implies after[a].label@
                != after[b].label@ by {
                if a == i {
                    assert(hosts[b].label@ != hosts[i].label@);
                } else if b == i {
                    assert(hosts[a].label@ != hosts[i].label@);
                }
            }
        },
        None => {},
    }
}

proof fn lemma_delete_spec_no_label(hosts: Seq<SavedHost>, label: Seq<char>)
    ensures
        forall|k: int|
            0 <= k < delete_spec(hosts, label).len() ==> #[trigger] delete_spec(
                hosts,
                label,
            )[k].label@ != label,
    decreases hosts.len(),
{
    reveal(Seq::filter);
    if hosts.len() > 0 {
        lemma_delete_spec_no_label(hosts.drop_last(), label);
        let prev = delete_spec(hosts.drop_last(), label);
        let after = delete_spec(hosts, label);
        assert forall|k: int| 0 <= k < after.len() implies #[trigger] after[k].label@
            != label by {
            if k < prev.len() {
                assert(after[k] == prev[k]);
            }
        }
    }
}

/// After deleting a label, no host has it, and every host of another label
/// is kept, in order.
pub proof fn law_delete_removes(hosts: Seq<SavedHost>, label: Seq<char>)
    ensures
        first_with_label(delete_spec(hosts, label), label) is None,
        forall|l: Seq<char>|
            l != label ==> #[trigger] with_label(hosts, l) == with_label(
                delete_spec(hosts, label),
                l,
            ),
{
    let after = delete_spec(hosts, label);
    lemma_delete_spec_no_label(hosts, label);
    assert forall|k: int| 0 <= k < after.len() implies after[k].label@ != label by {
        assert(after[k].label@ != label);
    }
    lemma_first_with_label_none(after, label);
    assert forall|l: Seq<char>| l != label implies #[trigger] with_label(hosts, l) == with_label(
        after,
        l,
    ) by {
        lemma_filter_filter(hosts, label, l);
    }
}

proof fn lemma_filter_filter(hosts: Seq<SavedHost>, label: Seq<char>, l: Seq<char>)
    requires
        l != label,
    ensures
        with_label(hosts, l) == with_label(delete_spec(hosts, label), l),
    decreases hosts.len(),
{
    reveal(Seq::filter);
    if hosts.len() > 0 {
        let prev = hosts.drop_last();
        lemma_filter_filter(prev, label, l);
        let d = delete_spec(hosts, label);
        if hosts.last().label@ != label {
            assert(d == delete_spec(prev, label).push(hosts.last()));
            assert(d.drop_last() =~= delete_spec(prev, label));
            assert(d.last() == hosts.last());
        } else {
            assert(d == delete_spec(prev, label));
        }
    }
}

proof fn lemma_delete_update(hosts: Seq<SavedHost>, i: int, h: SavedHost, label: Seq<char>)
    requires
        0 <= i < hosts.len(),
        hosts[i].label@ == label,
        h.label@ == label,
    ensures
        delete_spec(hosts.update(i, h), label) == delete_spec(hosts, label),
    decreases hosts.len(),
{
    reveal(Seq::filter);
    let u = hosts.update(i, h);
    if i < hosts.len() - 1 {
        lemma_delete_update(hosts.drop_last(), i, h, label);
        assert(u.drop_last() =~= hosts.drop_last().update(i, h));
        assert(u.last() == hosts.last());
    } else {
        assert(u.drop_last() =~= hosts.drop_last());
    }
}

/// Adding a host and then deleting its label gives the same list as
/// deleting the label alone.
pub proof fn law_upsert_then_delete(hosts: Seq<SavedHost>, new_host: SavedHost)
    ensures
        delete_spec(upsert_spec(hosts, new_host), new_host.label@) == delete_spec(
            hosts,
            new_host.label@,
        ),
{
    reveal(Seq::filter);
    lemma_first_with_label(hosts, new_host.label@);
    match first_with_label(hosts, new_host.label@) {
        Some(i) => {
            lemma_delete_update(hosts, i, new_host, new_host.label@);
        },
        None => {
            assert(hosts.push(new_host).drop_last() =~= hosts);
        },
    }
}

} // verus!
