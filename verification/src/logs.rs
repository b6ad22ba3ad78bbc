//! The status-message log's file format and size limit: each status-bar
//! message is appended to a file as one line, the RFC 3339 text of the
//! time it was set, a tab and the message, so that reading a line back
//! splits on the first tab whatever the message holds; in memory, and when
//! read back, only the most recent entries up to a configured number are
//! kept. The times themselves are the application's (chrono).
use vstd::prelude::*;
use crate::text::{sub_chars, chars_of, find_chars_from, find_from, lemma_find_from, occurs_at, spec_lines, string_of, line_at, lines_from, next_line};

verus! {

broadcast use vstd::string::group_string_axioms;

/// Text that holds no tab, line feed or carriage return.
pub open spec fn single_field(s: Seq<char>) -> bool {
    forall|i: int| 0 <= i < s.len() ==> s[i] != '\t' && s[i] != '\n' && s[i] != '\r'
}

/// A log file line: the timestamp, a tab, the message, a line feed.
pub open spec fn log_line(stamp: Seq<char>, message: Seq<char>) -> Seq<char> {
    stamp + seq!['\t'] + message + seq!['\n']
}

/// `s` split at its first tab.
pub open spec fn tab_split(s: Seq<char>) -> Option<(Seq<char>, Seq<char>)> {
    match find_from(s, seq!['\t'], 0) {
        Some(k) => Some((s.take(k), s.skip(k + 1))),
        None => None,
    }
}

/// The line written to the log file for a message set at the time whose
/// RFC 3339 text is `stamp`.
pub fn format_log_line(stamp: &str, message: &str) -> (r: String)
    ensures
        r@ == log_line(stamp@, message@),
{
    let mut v = chars_of(stamp);
    v.push('\t');
    let m = chars_of(message);
    let mut i: usize = 0;
    let ghost before = v@;
    while i < m.len()
        invariant
            i <= m@.len(),
            v@ == before + m@.take(i as int),
        decreases m@.len() - i,
    {
        v.push(m[i]);
        i = i + 1;
        assert(v@ =~= before + m@.take(i as int));
    }
    v.push('\n');
    assert(m@.take(m@.len() as int) =~= m@);
    assert(v@ =~= log_line(stamp@, message@));
    string_of(v.as_slice())
}

/// Reads one log file line back as its timestamp text (before the first
/// tab) and message (after it); nothing where the line has no tab.
pub fn split_log_line(line: &str) -> (r: Option<(String, String)>)
    ensures
        match tab_split(line@) {
            None => r is None,
            Some((stamp, message)) => r matches Some((a, b)) && a@ == stamp && b@ == message,
        },
{
    let chars = chars_of(line);
    let n = chars.len();
    let tab = vec!['\t'];
    assert(tab@ =~= seq!['\t']);
    match find_chars_from(chars.as_slice(), tab.as_slice(), 0) {
        None => None,
        Some(k) => {
            proof {
                lemma_find_from(chars@, seq!['\t'], 0);
                assert(find_from(chars@, seq!['\t'], 0) == Some(k as int));
                assert(occurs_at(chars@, seq!['\t'], k as int));
                assert(seq!['\t'].len() == 1);
                assert(k < chars@.len());
            }
            let stamp = sub_chars(chars.as_slice(), 0, k);
            let rest = sub_chars(chars.as_slice(), k + 1, n);
            assert(stamp@ =~= line@.take(k as int));
            assert(rest@ =~= line@.skip(k + 1));
            Some((string_of(stamp.as_slice()), string_of(rest.as_slice())))
        },
    }
}

/// The last `n` items of `s` (all of them if there are fewer).
pub open spec fn last_n<A>(s: Seq<A>, n: int) -> Seq<A> {
    if s.len() > n {
        s.skip(s.len() - n)
    } else {
        s
    }
}

/// The last `limit` items of `v`, in order (all of them if there are
/// fewer): what the log history keeps of the entries read from the file.
pub fn keep_last<T>(v: Vec<T>, limit: usize) -> (r: Vec<T>)
    ensures
        r@ == last_n(v@, limit as int),
        r@.len() <= limit,
{
    let n = v.len();
    if n <= limit {
        return v;
    }
    let mut kept: Vec<T> = Vec::new();
    let mut rest = v;
    let ghost all = rest@;
    let mut j: usize = 0;
    let drop = n - limit;
    while rest.len() > 0
        invariant
            all.len() == n,
            n > limit,
            drop == n - limit,
            j + rest@.len() == n,
            rest@ == all.skip(j as int),
            j <= drop ==> kept@.len() == 0,
            j > drop ==> kept@ == all.subrange(drop as int, j as int),
        decreases rest@.len(),
    {
        let e = rest.remove(0);
        assert(e == all[j as int]);
        assert(rest@ =~= all.skip(j as int + 1));
        if j >= drop {
            kept.push(e);
            assert(kept@ =~= all.subrange(drop as int, j as int + 1));
        }
        j = j + 1;
    }
    assert(kept@ =~= all.skip(drop as int));
    kept
}

/// Records `entry` at the end of `history`, then drops the oldest entry
/// when that leaves more than `limit`.
pub fn record_log_entry<T>(history: &mut Vec<T>, entry: T, limit: usize)
    requires
        old(history)@.len() < usize::MAX,
    ensures
        old(history)@.len() + 1 > limit ==> final(history)@ == old(history)@.push(entry).skip(1),
        old(history)@.len() + 1 <= limit ==> final(history)@ == old(history)@.push(entry),
        old(history)@.len() <= limit ==> final(history)@.len() <= limit,
{
    history.push(entry);
    if history.len() > limit {
        let ghost pushed = history@;
        history.remove(0);
        assert(history@ =~= pushed.skip(1));
    }
}

// ---------------------------------------------------------------------------
// Laws
// ---------------------------------------------------------------------------

/// A written log line reads back as the same message: for a message with
/// no line feed that does not end in a carriage return, the line written
/// for it is the file's one line, and splitting that line at its first tab
/// gives back the timestamp and the message.
pub proof fn lemma_log_line_round_trip(stamp: Seq<char>, message: Seq<char>)
    requires
        single_field(stamp),
        forall|i: int| 0 <= i < message.len() ==> message[i] != '\n',
        message.len() > 0 ==> message.last() != '\r',
    ensures
        spec_lines(log_line(stamp, message)) == seq![stamp + seq!['\t'] + message],
        tab_split(stamp + seq!['\t'] + message) == Some((stamp, message)),
{
    let s = log_line(stamp, message);
    let body = stamp + seq!['\t'] + message;
    let nl = (s.len() - 1) as int;
    // The only line feed is the last character.
    lemma_find_from(s, seq!['\n'], 0);
    assert(occurs_at(s, seq!['\n'], nl)) by {
        assert(s.subrange(nl, nl + 1) =~= seq!['\n']);
    }
    assert forall|j: int| 0 <= j < nl implies !occurs_at(s, seq!['\n'], j) by {
        if occurs_at(s, seq!['\n'], j) {
            assert(s.subrange(j, j + 1)[0] == s[j]);
            if j < stamp.len() {
                assert(s[j] == stamp[j]);
            } else if j > stamp.len() {
                assert(s[j] == message[j - stamp.len() - 1]);
            }
        }
    }
    assert(find_from(s, seq!['\n'], 0) == Some(nl)) by {
        lemma_find_is_first(s, seq!['\n'], 0, nl);
    }
    assert(s.subrange(0, nl) =~= body);
    assert(line_at(s, 0) =~= body);
    assert(next_line(s, 0) == s.len());
    assert(lines_from(s, s.len() as int) =~= Seq::<Seq<char>>::empty());
    assert(spec_lines(s) =~= seq![body]);
    // The first tab comes right after the timestamp.
    let k = stamp.len() as int;
    lemma_find_from(body, seq!['\t'], 0);
    assert(occurs_at(body, seq!['\t'], k)) by {
        assert(body.subrange(k, k + 1) =~= seq!['\t']);
    }
    assert forall|j: int| 0 <= j < k implies !occurs_at(body, seq!['\t'], j) by {
        if occurs_at(body, seq!['\t'], j) {
            assert(body.subrange(j, j + 1)[0] == body[j]);
            assert(body[j] == stamp[j]);
        }
    }
    lemma_find_is_first(body, seq!['\t'], 0, k);
    assert(body.take(k) =~= stamp);
    assert(body.skip(k + 1) =~= message);
}

/// Where `p` occurs at `k` and nowhere from `i` up to `k`, the search from
/// `i` finds `k`.
pub proof fn lemma_find_is_first(s: Seq<char>, p: Seq<char>, i: int, k: int)
    requires
        0 <= i <= k,
        occurs_at(s, p, k),
        forall|j: int| i <= j < k ==> !occurs_at(s, p, j),
    ensures
        find_from(s, p, i) == Some(k),
    decreases k - i,
{
    if i < k {
        assert(!occurs_at(s, p, i));
        lemma_find_is_first(s, p, i + 1, k);
    }
}

} // verus!
