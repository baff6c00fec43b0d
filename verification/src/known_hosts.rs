//! The known-hosts store: which host key was first seen for each host.
//!
//! The store is a plain text file of lines `host key`, where `host` is the
//! entry key of a host and port and `key` is the host key in OpenSSH format.
//! Reading and writing the file is the caller's business; this module turns
//! its text into entries and back, and decides what a key offered by a server
//! means against the entries.
use vstd::prelude::*;

use crate::error::ClientError;
use crate::text::{
    chars_of, str_concat, decimal, find_char, first_index, lemma_first_index_of, push_char,
    push_decimal, split_on, split_spec,
};

verus! {

/// An entry of the store as plain values: (entry key, OpenSSH key).
pub type EntryView = (Seq<char>, Seq<char>);

/// The entries of a store as plain values.
pub open spec fn entries_view(v: Seq<(String, String)>) -> Seq<EntryView> {
    v.map_values(|e: (String, String)| (e.0@, e.1@))
}

// ---------------------------------------------------------------------------
// Entry keys
// ---------------------------------------------------------------------------

/// The entry key of a host and port: the host alone on port 22,
/// `[host]:port` on any other port.
pub open spec fn entry_key_spec(host: Seq<char>, port: u16) -> Seq<char> {
    if port == 22 {
        host
    } else {
        seq!['['] + host + seq![']', ':'] + decimal(port as nat)
    }
}

/// Normalize a known-host entry key.
pub fn entry_key(host: &str, port: u16) -> (r: String)
    ensures
        r@ == entry_key_spec(host@, port),
{
    if port == 22 {
        String::from_str(host)
    } else {
        let mut s = String::new();
        push_char(&mut s, '[');
        s.append(host);
        push_char(&mut s, ']');
        push_char(&mut s, ':');
        push_decimal(&mut s, port as u64);
        proof {
            assert(s@ =~= seq!['['] + host@ + seq![']', ':'] + decimal(port as nat));
        }
        s
    }
}

// ---------------------------------------------------------------------------
// The text of the store
// ---------------------------------------------------------------------------

/// A line without the `\r` that ends it, if it ends with one.
pub open spec fn strip_cr(line: Seq<char>) -> Seq<char> {
    if line.len() > 0 && line.last() == '\r' {
        line.drop_last()
    } else {
        line
    }
}

/// The lines of a text as `str::lines` yields them: the text is cut at every
/// `\n`; a line ended by `\n` loses one `\r` before it; the piece after the
/// last `\n` is a line only when it is not empty.
pub open spec fn text_lines(text: Seq<char>) -> Seq<Seq<char>> {
    let pieces = split_spec(text, '\n');
    let ended = pieces.drop_last().map_values(|p: Seq<char>| strip_cr(p));
    if pieces.last().len() == 0 {
        ended
    } else {
        ended.push(pieces.last())
    }
}

/// The entry that a line holds: the text before its first space, and all the
/// text after it. A line without a space holds none.
pub open spec fn line_entry(line: Seq<char>) -> Option<EntryView> {
    match first_index(line, ' ') {
        Some(i) => Some((line.take(i), line.skip(i + 1))),
        None => None,
    }
}

/// The entries that the text of a store holds, in order.
pub open spec fn parse_known_hosts_spec(text: Seq<char>) -> Seq<EntryView> {
    text_lines(text).filter_map(|line: Seq<char>| line_entry(line))
}

/// The text of a store: one line `host key` per entry, each ended by `\n`.
pub open spec fn render_known_hosts_spec(entries: Seq<EntryView>) -> Seq<char>
    decreases entries.len(),
{
    if entries.len() == 0 {
        Seq::empty()
    } else {
        render_known_hosts_spec(entries.drop_last()) + entries.last().0 + seq![' ']
            + entries.last().1 + seq!['\n']
    }
}

/// The entry of one line of the store.
fn parse_line(line: &str) -> (r: Option<(String, String)>)
    ensures
        match line_entry(line@) {
            Some(e) => r matches Some(p) && p.0@ == e.0 && p.1@ == e.1,
            None => r is None,
        },
{
    let cs = chars_of(line);
    let n = cs.len();
    match find_char(&cs, ' ') {
        Some(i) => {
            let host = line.substring_char(0, i);
            let key = line.substring_char(i + 1, n);
            proof {
                assert(line@.skip(i + 1) =~= line@.subrange(i + 1, line@.len() as int));
                assert(line@.take(i as int) =~= line@.subrange(0, i as int));
            }
            Some((String::from_str(host), String::from_str(key)))
        },
        None => None,
    }
}

/// A line without one trailing `\r`.
fn without_cr(line: &str) -> (r: String)
    ensures
        r@ == strip_cr(line@),
{
    let cs = chars_of(line);
    if cs.len() > 0 && cs[cs.len() - 1] == '\r' {
        String::from_str(line.substring_char(0, cs.len() - 1))
    } else {
        String::from_str(line)
    }
}

/// Reads the entries of a store from its text; lines without a space are
/// skipped.
pub fn parse_known_hosts(text: &str) -> (r: Vec<(String, String)>)
    ensures
        entries_view(r@) == parse_known_hosts_spec(text@),
{
    let pieces = split_on(text, '\n');
    let ghost sp = split_spec(text@, '\n');
    let ghost f = |line: Seq<char>| line_entry(line);
    let ghost lines = text_lines(text@);
    let ghost ended = sp.drop_last().map_values(|p: Seq<char>| strip_cr(p));
    proof {
        crate::text::lemma_split_len(text@, '\n');
    }
    let n = pieces.len();
    let mut out: Vec<(String, String)> = Vec::new();
    let mut k: usize = 0;
    while k + 1 < n
        invariant
            n == pieces@.len(),
            n == sp.len(),
            n >= 1,
            k + 1 <= n,
            forall|i: int| 0 <= i < n ==> #[trigger] pieces@[i]@ == sp[i],
            ended == sp.drop_last().map_values(|p: Seq<char>| strip_cr(p)),
            f == (|line: Seq<char>| line_entry(line)),
            entries_view(out@) == ended.take(k as int).filter_map(f),
        decreases n - k,
    {
        let line = without_cr(pieces[k].as_str());
        proof {
            ended.lemma_filter_map_take_succ(f, k as int);
        }
        match parse_line(line.as_str()) {
            Some(e) => {
                let ghost prev = out@;
                out.push(e);
                proof {
                    assert(entries_view(out@) =~= entries_view(prev).push((e.0@, e.1@)));
                }
            },
            None => {},
        }
        k = k + 1;
    }
    proof {
        assert(ended.take(k as int) =~= ended);
    }
    let last = &pieces[n - 1];
    if !last.as_str().is_empty() {
        proof {
            assert(lines == ended.push(sp.last()));
            assert(lines.drop_last() =~= ended);
            assert(lines.take(lines.len() - 1) =~= ended);
            assert(lines.take(lines.len() as int) =~= lines);
            lines.lemma_filter_map_take_succ(f, lines.len() - 1);
        }
        match parse_line(last.as_str()) {
            Some(e) => {
                let ghost prev = out@;
                out.push(e);
                proof {
                    assert(entries_view(out@) =~= entries_view(prev).push((e.0@, e.1@)));
                }
            },
            None => {},
        }
    } else {
        proof {
            assert(sp.last().len() == 0);
        }
    }
    out
}

/// Writes the text of a store.
pub fn render_known_hosts(entries: &Vec<(String, String)>) -> (r: String)
    ensures
        r@ == render_known_hosts_spec(entries_view(entries@)),
{
    let mut out = String::new();
    let mut i: usize = 0;
    while i < entries.len()
        invariant
            i <= entries.len(),
            out@ == render_known_hosts_spec(entries_view(entries@).take(i as int)),
        decreases entries.len() - i,
    {
        let ghost before = out@;
        out.append(entries[i].0.as_str());
        push_char(&mut out, ' ');
        out.append(entries[i].1.as_str());
        push_char(&mut out, '\n');
        proof {
            let v = entries_view(entries@);
            assert(v.take(i + 1).drop_last() =~= v.take(i as int));
            assert(out@ =~= before + v[i as int].0 + seq![' '] + v[i as int].1 + seq!['\n']);
        }
        i = i + 1;
    }
    proof {
        assert(entries_view(entries@).take(entries.len() as int) =~= entries_view(entries@));
    }
    out
}

// ---------------------------------------------------------------------------
// Reading and writing the store give back the same entries
// ---------------------------------------------------------------------------

/// Whether an entry can be written as one line and read back unchanged: its
/// host has no space and no line break, and its key has no line break and
/// does not end with `\r`.
pub open spec fn storable_entry(e: EntryView) -> bool {
    &&& forall|k: int| 0 <= k < e.0.len() ==> e.0[k] != ' ' && e.0[k] != '\n'
    &&& forall|k: int| 0 <= k < e.1.len() ==> e.1[k] != '\n'
    &&& !(e.1.len() > 0 && e.1.last() == '\r')
}

proof fn lemma_split_append_plain(s: Seq<char>, t: Seq<char>, sep: char)
    requires
        forall|k: int| 0 <= k < t.len() ==> t[k] != sep,
    ensures
        split_spec(s + t, sep) == split_spec(s, sep).update(
            split_spec(s, sep).len() - 1,
            split_spec(s, sep).last() + t,
        ),
    decreases t.len(),
{
    crate::text::lemma_split_len(s, sep);
    if t.len() == 0 {
        assert(s + t =~= s);
        assert(split_spec(s, sep).last() + t =~= split_spec(s, sep).last());
        assert(split_spec(s, sep).update(
            split_spec(s, sep).len() - 1,
            split_spec(s, sep).last(),
        ) =~= split_spec(s, sep));
    } else {
        let t0 = t.drop_last();
        lemma_split_append_plain(s, t0, sep);
        assert((s + t).drop_last() =~= s + t0);
        assert((s + t).last() == t.last());
        crate::text::lemma_split_len(s + t0, sep);
        let p = split_spec(s, sep);
        assert(split_spec(s + t, sep) =~= p.update(p.len() - 1, p.last() + t)) by {
            assert((p.last() + t0).push(t.last()) =~= p.last() + t);
        }
    }
}

proof fn lemma_render_split_last(entries: Seq<EntryView>)
    ensures
        split_spec(render_known_hosts_spec(entries), '\n').last().len() == 0,
    decreases entries.len(),
{
    let r = render_known_hosts_spec(entries);
    if entries.len() > 0 {
        assert(r.last() == '\n');
        crate::text::lemma_split_len(r.drop_last(), '\n');
    }
}

/// Writing entries that can be stored and reading the text back gives the
/// same entries, in the same order.
pub proof fn law_parse_render(entries: Seq<EntryView>)
    requires
        forall|i: int| 0 <= i < entries.len() ==> storable_entry(#[trigger] entries[i]),
    ensures
        parse_known_hosts_spec(render_known_hosts_spec(entries)) == entries,
    decreases entries.len(),
{
    let f = |line: Seq<char>| line_entry(line);
    if entries.len() == 0 {
        let r = render_known_hosts_spec(entries);
        assert(r =~= Seq::<char>::empty());
        assert(split_spec(r, '\n') =~= seq![Seq::<char>::empty()]);
        assert(text_lines(r) =~= Seq::<Seq<char>>::empty());
        assert(text_lines(r).filter_map(f) =~= Seq::<EntryView>::empty());
    } else {
        let prev = entries.drop_last();
        let e = entries.last();
        assert forall|i: int| 0 <= i < prev.len() implies storable_entry(#[trigger] prev[i]) by {
            assert(prev[i] == entries[i]);
        }
        law_parse_render(prev);
        let rp = render_known_hosts_spec(prev);
        let line = e.0 + seq![' '] + e.1;
        let r = render_known_hosts_spec(entries);
        assert(r =~= (rp + line).push('\n'));
        // the new line holds no line break
        assert forall|k: int| 0 <= k < line.len() implies line[k] != '\n' by {
            if k < e.0.len() {
            } else if k > e.0.len() {
                assert(line[k] == e.1[k - e.0.len() - 1]);
            }
        }
        let p = split_spec(rp, '\n');
        crate::text::lemma_split_len(rp, '\n');
        lemma_render_split_last(prev);
        lemma_split_append_plain(rp, line, '\n');
        assert(p.last() + line =~= line);
        let q = p.update(p.len() - 1, line);
        assert(r.drop_last() =~= rp + line);
        assert(r.last() == '\n');
        assert(split_spec(r, '\n') == q.push(Seq::<char>::empty()));
        // the lines of the text are the previous lines and the new one
        let pl = text_lines(rp);
        assert(pl =~= p.drop_last().map_values(|x: Seq<char>| strip_cr(x)));
        assert(strip_cr(line) == line) by {
            if e.1.len() > 0 {
                assert(line.last() == e.1.last());
            } else {
                assert(line.last() == ' ');
            }
        }
        let nl = text_lines(r);
        assert(nl =~= pl.push(line)) by {
            assert(q.push(Seq::<char>::empty()).drop_last() =~= q);
        }
        // the new line holds exactly the new entry
        assert forall|k: int| 0 <= k < e.0.len() implies line[k] != ' ' by {}
        lemma_first_index_of(line, ' ', e.0.len() as int);
        assert(line.take(e.0.len() as int) =~= e.0);
        assert(line.skip(e.0.len() as int + 1) =~= e.1);
        assert(nl.drop_last() =~= pl);
        assert(nl.filter_map(f) =~= pl.filter_map(f) + seq![e]);
        assert(entries =~= prev.push(e));
    }
}

// ---------------------------------------------------------------------------
// Checking offered keys
// ---------------------------------------------------------------------------

/// Result type of a server host key checked against the known-hosts store.
#[derive(Debug, PartialEq, Eq)]
pub enum HostKeyCheck {
    /// Never seen this host before; key was recorded (trust-on-first-use).
    NewlyTrusted,
    /// The key matches what is already stored.
    Matches,
    /// The stored key is different: the server key changed, or someone is
    /// in the middle of the connection.
    Mismatch { recorded_fingerprint: String, offered_fingerprint: String },
}

/// A host key as the checks read it: its OpenSSH text.
pub struct HostKey {
    pub openssh: String,
}

/// What reading an OpenSSH public key text gives: its SHA-256 fingerprint as
/// text, or the text of the error that refused it (parsing, hashing and
/// showing the fingerprint, taken together).
pub uninterp spec fn openssh_fingerprint(text: Seq<char>) -> Result<Seq<char>, Seq<char>>;

/// Reads a key's OpenSSH text and takes its SHA-256 fingerprint. Three
/// outside calls stand behind it: `russh::keys::PublicKey::from_openssh`
/// parses the text, `PublicKey::fingerprint` hashes the key, and `Display`
/// shows the fingerprint (or the refusal). The claim: the result is
/// `openssh_fingerprint` of the text, a function of the text alone; the
/// error is the `Display` text of the refusal.
#[verifier::external_body]
fn fingerprint_of_openssh(text: &str) -> (r: Result<String, String>)
    ensures
        match r {
            Ok(s) => openssh_fingerprint(text@) == Ok::<Seq<char>, Seq<char>>(s@),
            Err(e) => openssh_fingerprint(text@) == Err::<Seq<char>, Seq<char>>(e@),
        },
{
    match russh::keys::PublicKey::from_openssh(text) {
        Ok(key) => Ok(key.fingerprint(Default::default()).to_string()),
        Err(e) => Err(e.to_string()),
    }
}

/// The index of the first entry with the given entry key.
pub open spec fn first_entry(entries: Seq<EntryView>, key: Seq<char>) -> Option<int>
    decreases entries.len(),
{
    if entries.len() == 0 {
        None
    } else if entries[0].0 == key {
        Some(0)
    } else {
        match first_entry(entries.drop_first(), key) {
            Some(i) => Some(i + 1),
            None => None,
        }
    }
}

/// The key on record for an entry key: that of its first entry.
pub open spec fn recorded_key(entries: Seq<EntryView>, key: Seq<char>) -> Option<Seq<char>> {
    match first_entry(entries, key) {
        Some(i) => Some(entries[i].1),
        None => None,
    }
}

proof fn lemma_first_entry_of(entries: Seq<EntryView>, key: Seq<char>, i: int)
    requires
        0 <= i < entries.len(),
        entries[i].0 == key,
        forall|k: int| 0 <= k < i ==> entries[k].0 != key,
    ensures
        first_entry(entries, key) == Some(i),
    decreases i,
{
    if i > 0 {
        lemma_first_entry_of(entries.drop_first(), key, i - 1);
    }
}

proof fn lemma_first_entry_none(entries: Seq<EntryView>, key: Seq<char>)
    requires
        forall|k: int| 0 <= k < entries.len() ==> entries[k].0 != key,
    ensures
        first_entry(entries, key) is None,
    decreases entries.len(),
{
    if entries.len() > 0 {
        lemma_first_entry_none(entries.drop_first(), key);
    }
}

proof fn lemma_first_entry_bounds(entries: Seq<EntryView>, key: Seq<char>)
    ensures
        match first_entry(entries, key) {
            Some(i) => 0 <= i < entries.len() && entries[i].0 == key && forall|k: int|
                0 <= k < i ==> entries[k].0 != key,
            None => forall|k: int| 0 <= k < entries.len() ==> entries[k].0 != key,
        },
    decreases entries.len(),
{
    if entries.len() > 0 && entries[0].0 != key {
        lemma_first_entry_bounds(entries.drop_first(), key);
        match first_entry(entries.drop_first(), key) {
            Some(i) => {
                assert forall|k: int| 0 <= k < i + 1 implies entries[k].0 != key by {
                    if k > 0 {
                        assert(entries[k] == entries.drop_first()[k - 1]);
                    }
                }
            },
            None => {
                assert forall|k: int| 0 <= k < entries.len() implies entries[k].0 != key by {
                    if k > 0 {
                        assert(entries[k] == entries.drop_first()[k - 1]);
                    }
                }
            },
        }
    }
}

/// The first entry with the given entry key.
fn find_entry(entries: &Vec<(String, String)>, key: &String) -> (r: Option<usize>)
    ensures
        match r {
            Some(i) => first_entry(entries_view(entries@), key@) == Some(i as int),
            None => first_entry(entries_view(entries@), key@) is None,
        },
{
    let mut i: usize = 0;
    while i < entries.len()
        invariant
            i <= entries.len(),
            forall|k: int| 0 <= k < i ==> entries_view(entries@)[k].0 != key@,
        decreases entries.len() - i,
    {
        if entries[i].0 == *key {
            proof {
                lemma_first_entry_of(entries_view(entries@), key@, i as int);
            }
            return Some(i);
        }
        i = i + 1;
    }
    proof {
        lemma_first_entry_none(entries_view(entries@), key@);
    }
    None
}

/// What checking an offered key (its OpenSSH text) against the entries
/// `before` of the store gives under an entry key: the answer `r` and the
/// entries `after`. A mismatch names the fingerprints of both keys; the
/// stored key is read first. The offered text is the key's own encoding, so
/// reading it back does not fail in practice; if it did, that is a `Config`
/// error too.
pub open spec fn host_key_outcome(
    before: Seq<EntryView>,
    after: Seq<EntryView>,
    key: Seq<char>,
    offered_openssh: Seq<char>,
    r: Result<HostKeyCheck, ClientError>,
) -> bool {
    match recorded_key(before, key) {
        None => r matches Ok(HostKeyCheck::NewlyTrusted) && after == before.push(
            (key, offered_openssh),
        ),
        Some(rec) => after == before && if rec == offered_openssh {
            r matches Ok(HostKeyCheck::Matches)
        } else {
            match openssh_fingerprint(rec) {
                Ok(fp) => match openssh_fingerprint(offered_openssh) {
                    Ok(ofp) => r matches Ok(
                        HostKeyCheck::Mismatch { recorded_fingerprint, offered_fingerprint },
                    ) && recorded_fingerprint@ == fp && offered_fingerprint@ == ofp,
                    Err(e) => r matches Err(ClientError::Config(msg)) && msg@
                        == "failed to parse offered host key: "@ + e,
                },
                Err(e) => r matches Err(ClientError::Config(msg)) && msg@
                    == "failed to parse stored host key: "@ + e,
            }
        },
    }
}

/// Check `offered` against the stored entry for this host and port.
///
/// An unknown host has the offered key recorded (trust on first use). On a
/// mismatch the stored key is not overwritten: the user is told and chooses
/// what to do. The entries change only when the answer is `NewlyTrusted`.
pub fn check_and_record(
    entries: &mut Vec<(String, String)>,
    host: &str,
    port: u16,
    offered: &HostKey,
) -> (r: Result<HostKeyCheck, ClientError>)
    ensures
        host_key_outcome(
            entries_view(old(entries)@),
            entries_view(final(entries)@),
            entry_key_spec(host@, port),
            offered.openssh@,
            r,
        ),
{
    let key = entry_key(host, port);
    proof {
        lemma_first_entry_bounds(entries_view(entries@), key@);
    }
    match find_entry(entries, &key) {
        Some(i) => {
            proof {
                assert(entries_view(entries@)[i as int] == (
                    entries@[i as int].0@,
                    entries@[i as int].1@,
                ));
            }
            if entries[i].1 == offered.openssh {
                return Ok(HostKeyCheck::Matches);
            }
            match fingerprint_of_openssh(entries[i].1.as_str()) {
                Ok(fp) => match fingerprint_of_openssh(offered.openssh.as_str()) {
                    Ok(ofp) => Ok(
                        HostKeyCheck::Mismatch { recorded_fingerprint: fp, offered_fingerprint: ofp },
                    ),
                    Err(e) => Err(
                        ClientError::Config(
                            str_concat("failed to parse offered host key: ", e.as_str()),
                        ),
                    ),
                },
                Err(e) => Err(
                    ClientError::Config(str_concat("failed to parse stored host key: ", e.as_str())),
                ),
            }
        },
        None => {
            let ghost before = entries@;
            entries.push((key, offered.openssh.clone()));
            proof {
                assert(entries_view(entries@) =~= entries_view(before).push(
                    (entry_key_spec(host@, port), offered.openssh@),
                ));
            }
            Ok(HostKeyCheck::NewlyTrusted)
        },
    }
}

/// The entries without those of the given entry key.
pub open spec fn forget_spec(entries: Seq<EntryView>, key: Seq<char>) -> Seq<EntryView> {
    entries.filter(|e: EntryView| e.0 != key)
}

/// Forget an entry, e.g. after the user confirms a legitimate server rekey
/// and wants to accept the new key: every entry of this host and port goes.
pub fn forget_host(entries: &mut Vec<(String, String)>, host: &str, port: u16)
    ensures
        entries_view(final(entries)@) == forget_spec(
            entries_view(old(entries)@),
            entry_key_spec(host@, port),
        ),
{
    let key = entry_key(host, port);
    let mut all: Vec<(String, String)> = Vec::new();
    std::mem::swap(&mut all, entries);
    let ghost src = entries_view(all@);
    let ghost pred = |e: EntryView| e.0 != key@;
    let mut kept: Vec<(String, String)> = Vec::new();
    let mut rest = all;
    let mut i: usize = 0;
    let n = rest.len();
    proof {
        reveal(Seq::filter);
        assert(src.take(0) =~= Seq::<EntryView>::empty());
    }
    while rest.len() > 0
        invariant
            n == src.len(),
            i + rest@.len() == n,
            entries_view(rest@) == src.skip(i as int),
            pred == (|e: EntryView| e.0 != key@),
            entries_view(kept@) == src.take(i as int).filter(pred),
        decreases rest.len(),
    {
        let ghost rest_before = rest@;
        let e = rest.remove(0);
        proof {
            reveal(Seq::filter);
            assert(src[i as int] == (e.0@, e.1@)) by {
                assert(entries_view(rest_before)[0] == src.skip(i as int)[0]);
            }
            assert(src.take(i + 1).drop_last() =~= src.take(i as int));
            assert(entries_view(rest@) =~= entries_view(rest_before).drop_first());
            assert(src.skip(i as int).drop_first() =~= src.skip(i + 1));
        }
        if e.0 != key {
            let ghost kept_before = kept@;
            kept.push(e);
            proof {
                assert(entries_view(kept@) =~= entries_view(kept_before).push(src[i as int]));
            }
        }
        i = i + 1;
    }
    proof {
        assert(src.take(i as int) =~= src);
    }
    *entries = kept;
}

/// Recording a key for an unknown host makes it the key on record, so the
/// same key offered again is answered `Matches`.
pub proof fn law_record_then_matches(
    entries: Seq<EntryView>,
    key: Seq<char>,
    offered: Seq<char>,
)
    requires
        recorded_key(entries, key) is None,
    ensures
        recorded_key(entries.push((key, offered)), key) == Some(offered),
{
    let after = entries.push((key, offered));
    lemma_first_entry_bounds(entries, key);
    assert forall|k: int| 0 <= k < entries.len() implies after[k].0 != key by {
        assert(after[k] == entries[k]);
    }
    lemma_first_entry_of(after, key, entries.len() as int);
}

/// After forgetting a host, no key is on record for it, and every other
/// host keeps the key it had.
pub proof fn law_forget(entries: Seq<EntryView>, key: Seq<char>, other: Seq<char>)
    requires
        other != key,
    ensures
        recorded_key(forget_spec(entries, key), key) is None,
        recorded_key(forget_spec(entries, key), other) == recorded_key(entries, other),
    decreases entries.len(),
{
    reveal(Seq::filter);
    let kept = forget_spec(entries, key);
    if entries.len() == 0 {
        assert(kept =~= entries);
    } else {
        let prev = entries.drop_last();
        law_forget(prev, key, other);
        let kp = forget_spec(prev, key);
        lemma_first_entry_bounds(kp, key);
        lemma_first_entry_bounds(kp, other);
        lemma_first_entry_bounds(prev, other);
        lemma_first_entry_bounds(entries, other);
        if entries.last().0 != key {
            assert(kept == kp.push(entries.last()));
            // key: still absent
            assert forall|k: int| 0 <= k < kept.len() implies kept[k].0 != key by {
                if k < kp.len() {
                    assert(kept[k] == kp[k]);
                }
            }
            lemma_first_entry_none(kept, key);
            // other: the first match is unchanged, or is the new last entry
            match first_entry(kp, other) {
                Some(j) => {
                    assert(kept[j] == kp[j]);
                    assert forall|k: int| 0 <= k < j implies kept[k].0 != other by {
                        assert(kept[k] == kp[k]);
                    }
                    lemma_first_entry_of(kept, other, j);
                    match first_entry(prev, other) {
                        Some(m) => {
                            assert(entries[m] == prev[m]);
                            assert forall|k: int| 0 <= k < m implies entries[k].0 != other by {
                                assert(entries[k] == prev[k]);
                            }
                            lemma_first_entry_of(entries, other, m);
                        },
                        None => {},
                    }
                },
                None => {
                    match first_entry(prev, other) {
                        Some(m) => {},
                        None => {
                            assert forall|k: int| 0 <= k < prev.len() implies entries[k].0
                                != other by {
                                assert(entries[k] == prev[k]);
                            }
                            assert forall|k: int| 0 <= k < kp.len() implies kept[k].0
                                != other by {
                                assert(kept[k] == kp[k]);
                            }
                            if entries.last().0 == other {
                                lemma_first_entry_of(kept, other, kp.len() as int);
                                lemma_first_entry_of(entries, other, prev.len() as int);
                            } else {
                                assert forall|k: int| 0 <= k < kept.len() implies kept[k].0
                                    != other by {
                                    if k < kp.len() {
                                        assert(kept[k] == kp[k]);
                                    }
                                }
                                lemma_first_entry_none(kept, other);
                                assert forall|k: int| 0 <= k < entries.len() implies entries[k].0
                                    != other by {
                                    if k < prev.len() {
                                        assert(entries[k] == prev[k]);
                                    }
                                }
                                lemma_first_entry_none(entries, other);
                            }
                        },
                    }
                },
            }
        } else {
            assert(kept == kp);
            match first_entry(prev, other) {
                Some(m) => {
                    assert(entries[m] == prev[m]);
                    assert forall|k: int| 0 <= k < m implies entries[k].0 != other by {
                        assert(entries[k] == prev[k]);
                    }
                    lemma_first_entry_of(entries, other, m);
                },
                None => {
                    assert forall|k: int| 0 <= k < entries.len() implies entries[k].0
                        != other by {
                        if k < prev.len() {
                            assert(entries[k] == prev[k]);
                        }
                    }
                    lemma_first_entry_none(entries, other);
                },
            }
        }
    }
}

} // verus!
