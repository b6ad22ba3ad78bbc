//! Small decisions of the main screen: which actions act on the selected
//! notebook from any panel, how a new-notebook input is read (a git URL to
//! clone, a path to adopt, or a name), how a list selection wraps, and
//! where a found note lives relative to its notebook.
use vstd::prelude::*;
use crate::keybindings::Action;
use crate::text::{chars_of, ends_with, starts_with, starts_with_str, string_of, sub_chars, ends_with_str};

verus! {

broadcast use vstd::string::group_string_axioms;

/// The notebook actions that act on "the selected notebook" rather than
/// on the notebooks panel, so they work from any panel: sync, pull, pull
/// all, set remote, push. New, rename and delete are not among them (they
/// share letters with notes-panel actions).
pub open spec fn spec_is_notebook_git_action(a: Action) -> bool {
    a == Action::SyncNotebook || a == Action::PullNotebook || a == Action::PullAllNotebooks
        || a == Action::SetRemote || a == Action::PushNotebook
}

pub fn is_notebook_git_action(action: Action) -> (r: bool)
    ensures
        r == spec_is_notebook_git_action(action),
{
    match action {
        Action::SyncNotebook | Action::PullNotebook | Action::PullAllNotebooks | Action::SetRemote
        | Action::PushNotebook => true,
        _ => false,
    }
}

/// Whether a new-notebook input is a git remote: it starts with
/// `http://`, `https://`, `git@`, `ssh://` or `git://`.
pub open spec fn spec_looks_like_git_url(s: Seq<char>) -> bool {
    starts_with(s, "http://"@) || starts_with(s, "https://"@) || starts_with(s, "git@"@) || starts_with(
        s,
        "ssh://"@,
    ) || starts_with(s, "git://"@)
}

pub fn looks_like_git_url(s: &str) -> (r: bool)
    ensures
        r == spec_looks_like_git_url(s@),
{
    let v = chars_of(s);
    starts_with_str(&v, "http://") || starts_with_str(&v, "https://") || starts_with_str(&v, "git@")
        || starts_with_str(&v, "ssh://") || starts_with_str(&v, "git://")
}

/// Whether a new-notebook input is a directory to adopt: it starts with
/// `/`, `~` or `./`.
pub open spec fn spec_looks_like_path(s: Seq<char>) -> bool {
    starts_with(s, "/"@) || starts_with(s, "~"@) || starts_with(s, "./"@)
}

pub fn looks_like_path(s: &str) -> (r: bool)
    ensures
        r == spec_looks_like_path(s@),
{
    let v = chars_of(s);
    starts_with_str(&v, "/") || starts_with_str(&v, "~") || starts_with_str(&v, "./")
}

/// `s` without its trailing `/`s.
pub open spec fn strip_slashes_end(s: Seq<char>) -> Seq<char>
    decreases s.len(),
{
    if s.len() > 0 && s.last() == '/' {
        strip_slashes_end(s.drop_last())
    } else {
        s
    }
}

/// The part of `s` after its last `/` or `:` (all of `s` without one).
pub open spec fn after_last_separator(s: Seq<char>) -> Seq<char>
    decreases s.len(),
{
    if s.len() == 0 {
        s
    } else if s.last() == '/' || s.last() == ':' {
        Seq::empty()
    } else {
        after_last_separator(s.drop_last()).push(s.last())
    }
}

/// A notebook name from a git URL: its last path segment (after the last
/// `/` or `:`, trailing slashes ignored) without a `.git` ending; nothing
/// when that leaves an empty name.
pub open spec fn spec_notebook_name_from_git_url(url: Seq<char>) -> Option<Seq<char>> {
    let last = after_last_separator(strip_slashes_end(url));
    let name = if ends_with(last, ".git"@) {
        last.subrange(0, last.len() - 4)
    } else {
        last
    };
    if name.len() == 0 {
        None
    } else {
        Some(name)
    }
}

pub fn notebook_name_from_git_url(url: &str) -> (r: Option<String>)
    ensures
        match r {
            Some(s) => spec_notebook_name_from_git_url(url@) == Some(s@),
            None => spec_notebook_name_from_git_url(url@) is None,
        },
{
    let v = chars_of(url);
    let mut end = v.len();
    assert(v@.subrange(0, end as int) =~= v@);
    while end > 0 && v[end - 1] == '/'
        invariant
            0 <= end <= v@.len(),
            strip_slashes_end(v@.subrange(0, end as int)) == strip_slashes_end(v@),
        decreases end,
    {
        assert(v@.subrange(0, end - 1) =~= v@.subrange(0, end as int).drop_last());
        end = end - 1;
    }
    proof {
        if end == v@.len() {
            assert(v@.subrange(0, end as int) =~= v@);
        }
    }
    let ghost t = v@.subrange(0, end as int);
    assert(strip_slashes_end(t) == t);
    let mut start = end;
    while start > 0 && v[start - 1] != '/' && v[start - 1] != ':'
        invariant
            0 <= start <= end <= v@.len(),
            t == v@.subrange(0, end as int),
            after_last_separator(t) == after_last_separator(v@.subrange(0, start as int)) + v@.subrange(
                start as int,
                end as int,
            ),
        decreases start,
    {
        let ghost p = v@.subrange(0, start as int);
        assert(p.drop_last() =~= v@.subrange(0, start - 1));
        assert(v@.subrange(start - 1, end as int) =~= seq![p.last()] + v@.subrange(start as int, end as int));
        start = start - 1;
    }
    proof {
        let p = v@.subrange(0, start as int);
        if start == 0 {
            assert(p =~= Seq::<char>::empty());
        }
        assert(after_last_separator(p) =~= Seq::<char>::empty());
    }
    let last = sub_chars(&v, start, end);
    assert(last@ =~= after_last_separator(strip_slashes_end(url@)));
    proof {
        reveal_strlit(".git");
    }
    let name = if ends_with_str(&last, ".git") {
        sub_chars(&last, 0, last.len() - 4)
    } else {
        last
    };
    if name.len() == 0 {
        None
    } else {
        Some(string_of(&name))
    }
}

/// A list selection moved by `delta`, wrapping around a list of `len`
/// rows; zero for an empty list.
pub open spec fn spec_shift(current: int, delta: int, len: int) -> int {
    if len == 0 {
        0
    } else {
        (current + delta) % len
    }
}

pub fn shift(current: usize, delta: isize, len: usize) -> (r: usize)
    requires
        current <= isize::MAX,
        len <= isize::MAX,
        isize::MIN <= current + delta <= isize::MAX,
    ensures
        r == spec_shift(current as int, delta as int, len as int),
        len > 0 ==> r < len,
{
    if len == 0 {
        return 0;
    }
    let c = current as u128;
    let l = len as u128;
    if delta >= 0 {
        let r = (c + delta as u128) % l;
        r as usize
    } else {
        let d = (0i128 - delta as i128) as u128;
        let m = d % l;
        let r = (c % l + (l - m)) % l;
        proof {
            let ci = c as int;
            let li = l as int;
            let di = d as int;
            vstd::arithmetic::div_mod::lemma_sub_mod_noop(ci, di, li);
            vstd::arithmetic::div_mod::lemma_mod_add_multiples_vanish(ci % li - di % li, li);
            assert(ci + delta == ci - di);
        }
        r as usize
    }
}

/// Moving by `delta` keeps a selection inside its list.
pub proof fn lemma_shift_in_range(current: int, delta: int, len: int)
    requires
        len > 0,
    ensures
        0 <= spec_shift(current, delta, len) < len,
{
}

/// The folder (as path components) holding a note, relative to its
/// notebook: the note's parent folder with the notebook's components
/// removed from its front, or no folder when the note is not inside the
/// notebook (or has no parent).
pub open spec fn spec_relative_folder(note: Seq<Seq<char>>, notebook: Seq<Seq<char>>) -> Seq<Seq<char>> {
    if note.len() == 0 {
        Seq::empty()
    } else {
        let parent = note.drop_last();
        if notebook.len() <= parent.len() && parent.subrange(0, notebook.len() as int) == notebook {
            parent.subrange(notebook.len() as int, parent.len() as int)
        } else {
            Seq::empty()
        }
    }
}

pub open spec fn components_view(v: Seq<String>) -> Seq<Seq<char>> {
    v.map_values(|s: String| s@)
}

/// The folder holding a note relative to its notebook, both given as path
/// components (see `spec_relative_folder`).
pub fn relative_folder(note_path: &Vec<String>, notebook_path: &Vec<String>) -> (r: Vec<String>)
    ensures
        components_view(r@) == spec_relative_folder(components_view(note_path@), components_view(notebook_path@)),
{
    let ghost nv = components_view(note_path@);
    let ghost bv = components_view(notebook_path@);
    if note_path.len() == 0 {
        let r: Vec<String> = Vec::new();
        assert(components_view(r@) =~= Seq::<Seq<char>>::empty());
        return r;
    }
    let parent_len = note_path.len() - 1;
    let nb = notebook_path.len();
    let mut inside = nb <= parent_len;
    let mut i: usize = 0;
    while inside && i < nb
        invariant
            nv == components_view(note_path@),
            bv == components_view(notebook_path@),
            parent_len == note_path@.len() - 1,
            nb == notebook_path@.len(),
            inside ==> nb <= parent_len,
            0 <= i <= nb,
            inside ==> forall|j: int| 0 <= j < i ==> nv[j] == bv[j],
            !inside ==> !(nb <= parent_len && nv.drop_last().subrange(0, nb as int) == bv),
        decreases nb - i + if inside {
            1int
        } else {
            0int
        },
    {
        if note_path[i] != notebook_path[i] {
            proof {
                assert(nv.drop_last().subrange(0, nb as int)[i as int] != bv[i as int]);
            }
            inside = false;
        } else {
            i = i + 1;
        }
    }
    let mut r: Vec<String> = Vec::new();
    if inside {
        assert(nv.drop_last().subrange(0, nb as int) =~= bv);
        let mut k = nb;
        while k < parent_len
            invariant
                nv == components_view(note_path@),
                parent_len == note_path@.len() - 1,
                nb <= k <= parent_len,
                components_view(r@) == nv.drop_last().subrange(nb as int, k as int),
            decreases parent_len - k,
        {
            let ghost before = r@;
            let c = note_path[k].clone();
            r.push(c);
            assert(r@ == before.push(c));
            assert(components_view(r@) =~= components_view(before).push(c@));
            assert(components_view(r@) =~= nv.drop_last().subrange(nb as int, k + 1));
            k = k + 1;
        }
    } else {
        assert(components_view(r@) =~= Seq::<Seq<char>>::empty());
    }
    r
}

/// What a path typed as `~...` names under the home directory: the rest
/// after the `~` and one `/` (empty for the home directory itself); nothing
/// for a path that does not start with `~`.
pub open spec fn spec_home_relative(path: Seq<char>) -> Option<Seq<char>> {
    if path.len() > 0 && path[0] == '~' {
        let rest = path.skip(1);
        if rest.len() > 0 && rest[0] == '/' {
            Some(rest.skip(1))
        } else {
            Some(rest)
        }
    } else {
        None
    }
}

/// The part of a `~` path below the home directory (see
/// `spec_home_relative`); joining it to the home directory is the
/// application's.
pub fn home_relative(path: &str) -> (r: Option<String>)
    ensures
        match r {
            Some(rest) => spec_home_relative(path@) == Some(rest@),
            None => spec_home_relative(path@) is None,
        },
{
    let v = chars_of(path);
    if v.len() == 0 || v[0] != '~' {
        return None;
    }
    let rest = sub_chars(v.as_slice(), 1, v.len());
    assert(rest@ =~= path@.skip(1));
    if rest.len() > 0 && rest[0] == '/' {
        let below = sub_chars(rest.as_slice(), 1, rest.len());
        assert(below@ =~= path@.skip(1).skip(1));
        Some(string_of(below.as_slice()))
    } else {
        Some(string_of(rest.as_slice()))
    }
}

} // verus!
