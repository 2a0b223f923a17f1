//! Paths as text, with the rules of Unix paths: what joining two gives, what a
//! path's last name is, and when two name the same place.

use vstd::prelude::*;
use vstd::string::*;

use crate::text;
use crate::text::{
    after_last_char, index_of_char, owned, same_text, slice_text, starts_with, to_chars,
};

verus! {

/// A path below another: an absolute one stands for itself, any other follows
/// the base behind one slash.
pub open spec fn joined(base: Seq<char>, rel: Seq<char>) -> Seq<char> {
    if rel.len() > 0 && rel[0] == '/' {
        rel
    } else if base.len() == 0 || base.last() == '/' {
        base + rel
    } else {
        base + seq!['/'] + rel
    }
}

/// The path `rel` below `base`.
pub fn join_path(base: &str, rel: &str) -> (r: String)
    ensures
        r@ == joined(base@, rel@),
{
    let b: Vec<char> = to_chars(base);
    let t: Vec<char> = to_chars(rel);
    if t.len() > 0 && t[0] == '/' {
        return owned(rel);
    }
    let mut r: String = owned(base);
    if b.len() > 0 && b[b.len() - 1] != '/' {
        r.push('/');
    }
    r.push_str(rel);
    assert(r@ =~= joined(base@, rel@));
    r
}

/// The names in a path from index `i` on: what stands between slashes, apart
/// from nothing at all and single dots.
pub open spec fn names_from(s: Seq<char>, i: int) -> Seq<Seq<char>>
    decreases s.len() - i,
{
    if i < 0 || i >= s.len() {
        Seq::empty()
    } else {
        let e = text::first_from(s, i, text::only('/'));
        proof {
            text::lemma_first_from(s, i, text::only('/'));
        }
        let name = s.subrange(i, e);
        let rest = if e >= s.len() {
            Seq::empty()
        } else {
            names_from(s, e + 1)
        };
        if name.len() == 0 || name == seq!['.'] {
            rest
        } else {
            seq![name] + rest
        }
    }
}

/// A path taken apart: whether it starts at the root, whether it starts at the
/// current directory by name, and the names on the way.
pub struct Parts {
    pub absolute: bool,
    pub dotted: bool,
    pub names: Seq<Seq<char>>,
}

/// A path taken apart. Two paths name the same place when their parts agree.
pub open spec fn parts_of(s: Seq<char>) -> Parts {
    Parts {
        absolute: s.len() > 0 && s[0] == '/',
        dotted: s.len() > 0 && s[0] == '.' && (s.len() == 1 || s[1] == '/'),
        names: names_from(s, 0),
    }
}

fn names(s: &str) -> (r: Vec<String>)
    ensures
        text::texts(r@) == names_from(s@, 0),
{
    let v: Vec<char> = to_chars(s);
    let n: usize = v.len();
    let mut r: Vec<String> = Vec::new();
    let mut i: usize = 0;
    let mut done: bool = n == 0;
    assert(text::texts(r@) =~= Seq::<Seq<char>>::empty());
    while !done
        invariant
            v@ == s@,
            n == v@.len(),
            !done ==> i < n,
            done ==> text::texts(r@) == names_from(s@, 0),
            !done ==> text::texts(r@) + names_from(s@, i as int) == names_from(s@, 0),
        decreases n - i + (if done {
            0int
        } else {
            1
        }),
    {
        let e: usize = index_of_char(&v, i, '/');
        let name: String = slice_text(&v, i, e);
        let ghost before = text::texts(r@);
        let single_dot: bool = e - i == 1 && v[i] == '.';
        assert(name@ =~= s@.subrange(i as int, e as int));
        if e > i && !single_dot {
            r.push(name);
            assert(text::texts(r@) =~= before.push(name@));
        }
        proof {
            let rest = names_from(s@, e + 1);
            if e >= n {
                assert(rest =~= Seq::<Seq<char>>::empty());
            }
            let here = if e > i && !single_dot {
                seq![name@] + rest
            } else {
                rest
            };
            let segment = s@.subrange(i as int, e as int);
            assert(segment.len() == e - i);
            assert((segment.len() == 0 || segment == seq!['.']) == !(e > i && !single_dot)) by {
                if segment.len() == 1 {
                    assert(segment[0] == s@[i as int]);
                    if single_dot {
                        assert(segment =~= seq!['.']);
                    }
                }
            }
            assert(names_from(s@, i as int) == here);
            assert(text::texts(r@) + rest =~= before + here);
        }
        if e >= n || e + 1 == n {
            assert(names_from(s@, e + 1) =~= Seq::<Seq<char>>::empty());
            assert(text::texts(r@) =~= names_from(s@, 0));
            done = true;
        } else {
            i = e + 1;
        }
    }
    r
}

/// Whether two paths name the same place by their text: doubled and trailing
/// slashes and single dots on the way make no difference.
pub fn same_path(a: &str, b: &str) -> (r: bool)
    ensures
        r == (parts_of(a@) == parts_of(b@)),
{
    let x: Vec<char> = to_chars(a);
    let y: Vec<char> = to_chars(b);
    let x_absolute: bool = x.len() > 0 && x[0] == '/';
    let y_absolute: bool = y.len() > 0 && y[0] == '/';
    let x_dotted: bool = x.len() > 0 && x[0] == '.' && (x.len() == 1 || x[1] == '/');
    let y_dotted: bool = y.len() > 0 && y[0] == '.' && (y.len() == 1 || y[1] == '/');
    if x_absolute != y_absolute || x_dotted != y_dotted {
        return false;
    }
    let p: Vec<String> = names(a);
    let q: Vec<String> = names(b);
    let ghost pt = text::texts(p@);
    let ghost qt = text::texts(q@);
    assert(pt.len() == p@.len() && qt.len() == q@.len());
    if p.len() != q.len() {
        return false;
    }
    let mut i: usize = 0;
    while i < p.len()
        invariant
            i <= p@.len(),
            p@.len() == q@.len(),
            pt == text::texts(p@),
            qt == text::texts(q@),
            pt == names_from(a@, 0),
            qt == names_from(b@, 0),
            forall|j: int| 0 <= j < i ==> pt[j] == qt[j],
        decreases p@.len() - i,
    {
        assert(pt[i as int] == p@[i as int]@ && qt[i as int] == q@[i as int]@);
        if !same_text(p[i].as_str(), q[i].as_str()) {
            return false;
        }
        i += 1;
    }
    assert(pt =~= qt);
    true
}

/// The last name of a path, if it has one: none for the root, for the current
/// directory, and for a path that ends in `..`.
pub open spec fn file_name_of(s: Seq<char>) -> Option<Seq<char>> {
    let names = names_from(s, 0);
    if names.len() == 0 || names.last() == seq!['.', '.'] {
        None
    } else {
        Some(names.last())
    }
}

/// The last name of a path, if it has one.
pub fn file_name(s: &str) -> (r: Option<String>)
    ensures
        text::opt_text(r) == file_name_of(s@),
{
    let all: Vec<String> = names(s);
    let ghost t = text::texts(all@);
    assert(t.len() == all@.len());
    if all.len() == 0 {
        return None;
    }
    let last: String = all[all.len() - 1].clone();
    assert(t.last() == last@);
    if same_text(last.as_str(), "..") {
        proof {
            reveal_strlit("..");
            assert(".."@ =~= seq!['.', '.']);
        }
        return None;
    }
    proof {
        reveal_strlit("..");
        assert(".."@ =~= seq!['.', '.']);
    }
    Some(last)
}

/// Whether a path starts at the root.
pub fn is_absolute(s: &str) -> (r: bool)
    ensures
        r == parts_of(s@).absolute,
{
    proof {
        reveal_strlit("/");
        assert("/"@.len() == 1);
    }
    let r: bool = starts_with(s, "/");
    proof {
        if s@.len() > 0 {
            assert(s@.subrange(0, 1)[0] == s@[0]);
            if s@[0] == '/' {
                assert(s@.subrange(0, 1) =~= "/"@);
            }
        }
    }
    r
}

/// A path without the slashes and single dots at its end. The root stays.
pub open spec fn tail_trimmed(s: Seq<char>) -> Seq<char>
    decreases s.len(),
{
    if s.len() > 1 && s.last() == '/' {
        tail_trimmed(s.drop_last())
    } else if s.len() > 1 && s.last() == '.' && s[s.len() - 2] == '/' {
        tail_trimmed(s.drop_last())
    } else {
        s
    }
}

/// A path with its last name replaced, or with a name added where it has none.
pub open spec fn renamed(s: Seq<char>, name: Seq<char>) -> Seq<char> {
    if file_name_of(s) is Some {
        let t = tail_trimmed(s);
        joined(tail_trimmed(t.take(t.len() - text::after_last(t, '/').len())), name)
    } else {
        joined(s, name)
    }
}

fn trim_tail(v: &Vec<char>, n: usize) -> (r: usize)
    requires
        n <= v@.len(),
    ensures
        r <= n,
        v@.take(r as int) == tail_trimmed(v@.take(n as int)),
{
    let mut k: usize = n;
    while k > 1 && (v[k - 1] == '/' || (v[k - 1] == '.' && v[k - 2] == '/'))
        invariant
            k <= n <= v@.len(),
            tail_trimmed(v@.take(k as int)) == tail_trimmed(v@.take(n as int)),
        decreases k,
    {
        assert(v@.take(k as int).drop_last() =~= v@.take(k - 1));
        k -= 1;
    }
    k
}

/// The path with its last name replaced by `name`.
pub fn with_file_name(s: &str, name: &str) -> (r: String)
    ensures
        r@ == renamed(s@, name@),
{
    if file_name(s).is_none() {
        return join_path(s, name);
    }
    let v: Vec<char> = to_chars(s);
    assert(v@.take(v@.len() as int) =~= v@);
    let end: usize = trim_tail(&v, v.len());
    let t: String = slice_text(&v, 0, end);
    assert(t@ =~= v@.take(end as int));
    let last: String = after_last_char(t.as_str(), '/');
    let w: Vec<char> = to_chars(t.as_str());
    let tail: Vec<char> = to_chars(last.as_str());
    proof {
        text::lemma_cut_end(t@, t@.len() as int, text::but('/'));
    }
    let cut: usize = w.len() - tail.len();
    let keep: usize = trim_tail(&w, cut);
    let parent: String = slice_text(&w, 0, keep);
    assert(parent@ =~= w@.take(keep as int));
    join_path(parent.as_str(), name)
}

} // verus!
