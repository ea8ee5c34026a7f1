//! The list of recently opened projects: most recent first, no path twice,
//! at most [`MAX_RECENT`] entries, kept as a JSON array of path strings.
//!
//! Each operation is a function of the list file's current text and its
//! inputs; reading and writing the file is left to the caller.
use vstd::prelude::*;

verus! {

/// serde_json's error for a value it cannot write.
#[verifier::external_type_specification]
#[verifier::external_body]
pub struct ExJsonError(serde_json::Error);

/// Most entries the list keeps.
pub const MAX_RECENT: usize = 10;

/// The paths held by a vector of strings.
pub open spec fn paths_of(v: Seq<String>) -> Seq<Seq<char>> {
    v.map_values(|s: String| s@)
}

/// `l` with every occurrence of `p` taken out, order kept.
pub open spec fn without(l: Seq<Seq<char>>, p: Seq<char>) -> Seq<Seq<char>>
    decreases l.len(),
{
    if l.len() == 0 {
        l
    } else if l.last() == p {
        without(l.drop_last(), p)
    } else {
        without(l.drop_last(), p).push(l.last())
    }
}

/// The list after `p` is opened: `p` in front, its older occurrence gone,
/// and cut to [`MAX_RECENT`] entries.
pub open spec fn touched(l: Seq<Seq<char>>, p: Seq<char>) -> Seq<Seq<char>> {
    let t = seq![p] + without(l, p);
    if t.len() <= MAX_RECENT {
        t
    } else {
        t.take(MAX_RECENT as int)
    }
}

/// The entries of `l` whose flag in `live` is set, order kept.
pub open spec fn keep_live(l: Seq<Seq<char>>, live: Seq<bool>) -> Seq<Seq<char>>
    decreases l.len(),
{
    if l.len() == 0 || live.len() == 0 {
        Seq::empty()
    } else if live.last() {
        keep_live(l.drop_last(), live.drop_last()).push(l.last())
    } else {
        keep_live(l.drop_last(), live.drop_last())
    }
}

/// The array of strings that serde_json reads from `text`; `None` when the
/// text is no such array.
pub uninterp spec fn json_string_list_of(text: Seq<char>) -> Option<Seq<Seq<char>>>;

/// The pretty-printed JSON array that serde_json writes for `paths`.
pub uninterp spec fn json_pretty_list_of(paths: Seq<Seq<char>>) -> Seq<char>;

/// Relies on `serde_json::from_str::<Vec<String>>`.
#[verifier::external_body]
fn parse_string_list(text: &str) -> (r: Option<Vec<String>>)
    ensures
        match r {
            Some(v) => json_string_list_of(text@) == Some(paths_of(v@)),
            None => json_string_list_of(text@) is None,
        },
{
    serde_json::from_str::<Vec<String>>(text).ok()
}

/// Relies on `serde_json::to_string_pretty` for a slice of strings, which
/// fails only where a `Serialize` impl fails or a map has non-string keys:
/// never for strings.
#[verifier::external_body]
fn print_string_list(paths: &[String]) -> (r: Result<String, serde_json::Error>)
    ensures
        r is Ok,
        r matches Ok(text) ==> text@ == json_pretty_list_of(paths_of(paths@)),
{
    serde_json::to_string_pretty(paths)
}

/// The text of the list file, or `None` when there is no file.
pub open spec fn file_text(t: Option<&str>) -> Option<Seq<char>> {
    match t {
        Some(s) => Some(s@),
        None => None,
    }
}

/// The list that the list file holds: empty when there is no file or its
/// text is not a JSON array of strings.
pub open spec fn stored_list(text: Option<Seq<char>>) -> Seq<Seq<char>> {
    match text {
        Some(t) => match json_string_list_of(t) {
            Some(l) => l,
            None => Seq::empty(),
        },
        None => Seq::empty(),
    }
}

/// Reads the list from the list file's text; a missing or unreadable file
/// gives the empty list rather than an error.
pub fn load_recent(text: Option<&str>) -> (r: Vec<String>)
    ensures
        paths_of(r@) == stored_list(file_text(text)),
{
    match text {
        Some(t) => match parse_string_list(t) {
            Some(v) => v,
            None => Vec::new(),
        },
        None => Vec::new(),
    }
}

/// The list file's text for `paths`.
pub fn render_recent(paths: &Vec<String>) -> (r: Result<String, String>)
    ensures
        r is Ok,
        r matches Ok(t) ==> t@ == json_pretty_list_of(paths_of(paths@)),
{
    match print_string_list(paths.as_slice()) {
        Ok(t) => Ok(t),
        Err(e) => Err(e.to_string()),
    }
}

/// The list file's new text after `path` is opened, from its current text.
pub fn touch_file(current: Option<&str>, path: String) -> (r: Result<String, String>)
    ensures
        r is Ok,
        r matches Ok(t) ==> t@ == json_pretty_list_of(
            touched(stored_list(file_text(current)), path@),
        ),
{
    let mut paths = load_recent(current);
    touch(&mut paths, path);
    render_recent(&paths)
}

/// The list file's new text after `path` is removed, from its current text;
/// `None` when there is no list file, which then stays absent.
pub fn remove_file(current: Option<&str>, path: &String) -> (r: Result<Option<String>, String>)
    ensures
        current is None ==> r matches Ok(None),
        current is Some ==> match r {
            Ok(Some(t)) => t@ == json_pretty_list_of(without(stored_list(file_text(current)), path@)),
            Ok(None) => false,
            Err(_) => false,
        },
{
    if current.is_none() {
        return Ok(None);
    }
    let mut paths = load_recent(current);
    remove_path(&mut paths, path);
    match render_recent(&paths) {
        Ok(t) => Ok(Some(t)),
        Err(e) => Err(e),
    }
}

proof fn lemma_paths_of_push(v: Seq<String>, s: String)
    ensures
        paths_of(v.push(s)) == paths_of(v).push(s@),
{
    assert(paths_of(v.push(s)) =~= paths_of(v).push(s@));
}

proof fn lemma_paths_of_take_next(v: Seq<String>, i: int)
    requires
        0 <= i < v.len(),
    ensures
        paths_of(v.take(i + 1)).drop_last() == paths_of(v.take(i)),
        paths_of(v.take(i + 1)).last() == v[i]@,
        paths_of(v.take(i + 1)).len() > 0,
{
    assert(paths_of(v.take(i + 1)).drop_last() =~= paths_of(v.take(i)));
}

/// Takes every occurrence of `path` out of `paths`, order kept.
pub fn remove_path(paths: &mut Vec<String>, path: &String)
    ensures
        paths_of(final(paths)@) == without(paths_of(old(paths)@), path@),
{
    let mut out: Vec<String> = Vec::new();
    let mut i: usize = 0;
    while i < paths.len()
        invariant
            paths@ == old(paths)@,
            i <= paths@.len(),
            paths_of(out@) == without(paths_of(paths@.take(i as int)), path@),
        decreases paths@.len() - i,
    {
        proof {
            lemma_paths_of_take_next(paths@, i as int);
        }
        if !(paths[i] == *path) {
            let kept = paths[i].clone();
            proof {
                lemma_paths_of_push(out@, kept);
            }
            out.push(kept);
        }
        i = i + 1;
    }
    assert(paths@.take(i as int) =~= paths@);
    *paths = out;
}

/// Records that `path` was opened: it moves to the front (or is added
/// there), and the list keeps at most [`MAX_RECENT`] entries.
pub fn touch(paths: &mut Vec<String>, path: String)
    ensures
        paths_of(final(paths)@) == touched(paths_of(old(paths)@), path@),
{
    remove_path(paths, &path);
    let ghost rest = paths@;
    paths.insert(0, path);
    assert(paths_of(paths@) =~= seq![path@] + paths_of(rest));
    paths.truncate(MAX_RECENT);
    assert(paths_of(paths@) =~= touched(paths_of(old(paths)@), path@));
}

/// The stored entries whose flag in `live` is set, order kept. `live` holds,
/// for each stored entry, whether its project is still valid.
pub fn retain_live(paths: &Vec<String>, live: &[bool]) -> (r: Vec<String>)
    requires
        paths@.len() == live@.len(),
    ensures
        paths_of(r@) == keep_live(paths_of(paths@), live@),
{
    let mut out: Vec<String> = Vec::new();
    let mut i: usize = 0;
    while i < paths.len()
        invariant
            paths@.len() == live@.len(),
            i <= paths@.len(),
            paths_of(out@) == keep_live(paths_of(paths@.take(i as int)), live@.take(i as int)),
        decreases paths@.len() - i,
    {
        proof {
            lemma_paths_of_take_next(paths@, i as int);
            assert(live@.take(i + 1).drop_last() =~= live@.take(i as int));
        }
        if live[i] {
            let kept = paths[i].clone();
            proof {
                lemma_paths_of_push(out@, kept);
            }
            out.push(kept);
        }
        i = i + 1;
    }
    assert(paths@.take(i as int) =~= paths@);
    assert(live@.take(i as int) =~= live@);
    out
}

/// What taking `p` out of a list keeps: exactly the other entries, so a list
/// without `p` is left as it is and a list without repeats stays so.
pub proof fn lemma_without(l: Seq<Seq<char>>, p: Seq<char>)
    ensures
        forall|x: Seq<char>| #[trigger] without(l, p).contains(x) <==> (l.contains(x) && x != p),
        without(l, p).len() <= l.len(),
        l.no_duplicates() ==> without(l, p).no_duplicates(),
        !l.contains(p) ==> without(l, p) == l,
    decreases l.len(),
{
    if l.len() > 0 {
        let init = l.drop_last();
        lemma_without(init, p);
        assert(l =~= init.push(l.last()));
        assert forall|x: Seq<char>| l.contains(x) <==> (init.contains(x) || x == l.last()) by {
            if l.contains(x) {
                let i = choose|i: int| 0 <= i < l.len() && l[i] == x;
                if i < l.len() - 1 {
                    assert(init[i] == x);
                }
            }
            if init.contains(x) {
                let i = choose|i: int| 0 <= i < init.len() && init[i] == x;
                assert(l[i] == x);
            }
            if x == l.last() {
                assert(l[l.len() - 1] == x);
            }
        }
        let w = without(init, p);
        if l.last() != p {
            assert forall|x: Seq<char>| w.push(l.last()).contains(x) <==> (w.contains(x) || x == l.last()) by {
                if w.push(l.last()).contains(x) {
                    let i = choose|i: int| 0 <= i < w.len() + 1 && w.push(l.last())[i] == x;
                    if i < w.len() {
                        assert(w[i] == x);
                    }
                }
                if w.contains(x) {
                    let i = choose|i: int| 0 <= i < w.len() && w[i] == x;
                    assert(w.push(l.last())[i] == x);
                }
                if x == l.last() {
                    assert(w.push(l.last())[w.len() as int] == x);
                }
            }
            if l.no_duplicates() {
                assert(init.no_duplicates()) by {
                    assert forall|i: int, j: int|
                        0 <= i < init.len() && 0 <= j < init.len() && i != j implies init[i]
                        != init[j] by {
                        assert(l[i] == init[i] && l[j] == init[j]);
                    }
                }
                assert(!init.contains(l.last())) by {
                    if init.contains(l.last()) {
                        let i = choose|i: int| 0 <= i < init.len() && init[i] == l.last();
                        assert(l[i] == l[l.len() - 1]);
                    }
                }
                assert(!w.contains(l.last()));
                assert(w.push(l.last()).no_duplicates()) by {
                    let wp = w.push(l.last());
                    assert forall|i: int, j: int|
                        0 <= i < wp.len() && 0 <= j < wp.len() && i != j implies wp[i] != wp[j] by {
                        if i < w.len() && j < w.len() {
                            assert(wp[i] == w[i] && wp[j] == w[j]);
                        } else if i < w.len() {
                            assert(wp[i] == w[i]);
                            assert(w.contains(w[i]));
                        } else if j < w.len() {
                            assert(wp[j] == w[j]);
                            assert(w.contains(w[j]));
                        }
                    }
                }
            }
        } else {
            if l.no_duplicates() {
                assert(init.no_duplicates()) by {
                    assert forall|i: int, j: int|
                        0 <= i < init.len() && 0 <= j < init.len() && i != j implies init[i]
                        != init[j] by {
                        assert(l[i] == init[i] && l[j] == init[j]);
                    }
                }
            }
            assert(l.contains(p));
        }
        assert forall|x: Seq<char>| #[trigger] without(l, p).contains(x) <==> (l.contains(x) && x != p) by {
            assert(l.contains(x) <==> (init.contains(x) || x == l.last()));
            assert(w.contains(x) <==> (init.contains(x) && x != p));
        }
    }
}

/// After opening `p` the list starts with `p`, holds it once, and has at
/// most [`MAX_RECENT`] entries; a list without repeats stays without repeats.
pub proof fn lemma_touch_shape(l: Seq<Seq<char>>, p: Seq<char>)
    ensures
        touched(l, p).len() >= 1,
        touched(l, p).len() <= MAX_RECENT,
        touched(l, p)[0] == p,
        forall|i: int| 0 < i < touched(l, p).len() ==> touched(l, p)[i] != p,
        l.no_duplicates() ==> touched(l, p).no_duplicates(),
{
    lemma_without(l, p);
    let w = without(l, p);
    let t = seq![p] + w;
    assert forall|i: int| 0 < i < t.len() implies t[i] != p by {
        assert(t[i] == w[i - 1]);
        assert(w.contains(w[i - 1]));
    }
    if l.no_duplicates() {
        assert(t.no_duplicates()) by {
            assert forall|i: int, j: int| 0 <= i < t.len() && 0 <= j < t.len() && i != j implies t[i]
                != t[j] by {
                if i > 0 && j > 0 {
                    assert(t[i] == w[i - 1] && t[j] == w[j - 1]);
                }
            }
        }
    }
    if t.len() > MAX_RECENT {
        let k = t.take(MAX_RECENT as int);
        assert forall|i: int| 0 < i < k.len() implies k[i] != p by {
            assert(k[i] == t[i]);
        }
        if l.no_duplicates() {
            assert forall|i: int, j: int| 0 <= i < k.len() && 0 <= j < k.len() && i != j implies k[i]
                != k[j] by {
                assert(k[i] == t[i] && k[j] == t[j]);
            }
        }
    }
}

/// Opening a path that the list does not hold when the list is full drops
/// exactly its oldest entry, leaving [`MAX_RECENT`] entries.
pub proof fn lemma_touch_full(l: Seq<Seq<char>>, p: Seq<char>)
    requires
        l.len() == MAX_RECENT,
        !l.contains(p),
    ensures
        touched(l, p) == seq![p] + l.take(MAX_RECENT - 1),
        touched(l, p).len() == MAX_RECENT,
{
    lemma_without(l, p);
    assert(touched(l, p) =~= seq![p] + l.take(MAX_RECENT - 1));
}

/// Opening `a`, then `b`, then `a` again on an empty list gives `[a, b]`:
/// `a` comes back to the front and is not held twice.
pub proof fn lemma_touch_promotes(a: Seq<char>, b: Seq<char>)
    requires
        a != b,
    ensures
        touched(touched(touched(Seq::empty(), a), b), a) == seq![a, b],
{
    let e = Seq::<Seq<char>>::empty();
    lemma_without(e, a);
    let l1 = touched(e, a);
    assert(l1 =~= seq![a]);
    assert(!l1.contains(b)) by {
        assert(l1[0] != b);
    }
    lemma_without(l1, b);
    let l2 = touched(l1, b);
    assert(l2 =~= seq![b, a]);
    assert(l2.drop_last() =~= seq![b]);
    assert(seq![b].drop_last() =~= e);
    assert(without(e, a) == e);
    assert(without(seq![b], a) =~= seq![b]);
    assert(without(l2, a) == seq![b]);
    assert(touched(l2, a) =~= seq![a, b]);
}

/// Removing a path that the list does not hold leaves the list as it is.
pub proof fn lemma_remove_absent(l: Seq<Seq<char>>, p: Seq<char>)
    requires
        !l.contains(p),
    ensures
        without(l, p) == l,
{
    lemma_without(l, p);
}

/// Only entries flagged live are listed: a path whose every stored
/// occurrence is flagged dead is not in the result.
pub proof fn lemma_keep_live(l: Seq<Seq<char>>, live: Seq<bool>, x: Seq<char>)
    requires
        l.len() == live.len(),
        keep_live(l, live).contains(x),
    ensures
        exists|i: int| 0 <= i < l.len() && l[i] == x && live[i],
    decreases l.len(),
{
    let k = keep_live(l.drop_last(), live.drop_last());
    let n = l.len() - 1;
    if live.last() && x == l.last() {
        assert(l[n] == x && live[n]);
    } else {
        if live.last() {
            let j = choose|j: int| 0 <= j < k.len() + 1 && k.push(l.last())[j] == x;
            assert(j < k.len());
            assert(k[j] == x);
        }
        lemma_keep_live(l.drop_last(), live.drop_last(), x);
        let i = choose|i: int| 0 <= i < n && l.drop_last()[i] == x && live.drop_last()[i];
        assert(l[i] == x && live[i]);
    }
}

} // verus!
