//! Paths as `std::path` reads them on a POSIX system: `/` separates
//! components, empty and `.` components are dropped (but for a `.` that opens a
//! relative path), and `..` is kept.
use vstd::prelude::*;

use crate::text::chars_of;

verus! {

broadcast use vstd::string::group_string_axioms;

/// The pieces of `s` between separators, empty ones included.
pub open spec fn segments(s: Seq<char>) -> Seq<Seq<char>>
    decreases s.len(),
{
    if s.len() == 0 {
        seq![Seq::<char>::empty()]
    } else {
        let prev = segments(s.drop_last());
        if s.last() == '/' {
            prev.push(Seq::<char>::empty())
        } else {
            prev.update(prev.len() - 1, prev.last().push(s.last()))
        }
    }
}

/// A segment that names something: neither empty nor `.`.
pub open spec fn is_named(seg: Seq<char>) -> bool {
    seg.len() > 0 && seg != seq!['.']
}

/// The named segments of `segs`, in order.
pub open spec fn named(segs: Seq<Seq<char>>) -> Seq<Seq<char>>
    decreases segs.len(),
{
    if segs.len() == 0 {
        Seq::empty()
    } else if is_named(segs.last()) {
        named(segs.drop_last()).push(segs.last())
    } else {
        named(segs.drop_last())
    }
}

/// The component that stands for the root directory.
pub open spec fn root_dir() -> Seq<char> {
    seq!['/']
}

/// The component that stands for a leading current directory.
pub open spec fn cur_dir() -> Seq<char> {
    seq!['.']
}

/// The component that stands for the parent directory.
pub open spec fn parent_dir() -> Seq<char> {
    seq!['.', '.']
}

/// Whether `s` starts at the root, as `Path::has_root` says; on POSIX this is
/// also `Path::is_absolute`.
pub open spec fn is_absolute(s: Seq<char>) -> bool {
    s.len() > 0 && s[0] == '/'
}

/// Whether `s` opens with a `.` component that `Path::components` keeps.
pub open spec fn opens_with_cur_dir(s: Seq<char>) -> bool {
    &&& !is_absolute(s)
    &&& s.len() > 0
    &&& s[0] == '.'
    &&& (s.len() == 1 || s[1] == '/')
}

/// The components of `s`, as `Path::components` yields them: the root as
/// `/`, a leading current directory as `.`, then each named segment.
pub open spec fn components(s: Seq<char>) -> Seq<Seq<char>> {
    leading_components(s) + named(segments(s))
}

/// The components that open `s` before its named segments: the root, or a
/// leading current directory.
pub open spec fn leading_components(s: Seq<char>) -> Seq<Seq<char>> {
    if is_absolute(s) {
        seq![root_dir()]
    } else if opens_with_cur_dir(s) {
        seq![cur_dir()]
    } else {
        Seq::empty()
    }
}

/// Components written one after the other with `/` between them.
pub open spec fn join_components(cs: Seq<Seq<char>>) -> Seq<char>
    decreases cs.len(),
{
    if cs.len() == 0 {
        Seq::empty()
    } else if cs.len() == 1 {
        cs[0]
    } else {
        join_components(cs.drop_last()) + seq!['/'] + cs.last()
    }
}

/// The path that a sequence of components spells.
pub open spec fn render(cs: Seq<Seq<char>>) -> Seq<char> {
    if cs.len() > 0 && cs[0] == root_dir() {
        seq!['/'] + join_components(cs.skip(1))
    } else {
        join_components(cs)
    }
}

/// `base` joined with `p`, as `Path::join` gives it: an absolute `p` replaces
/// `base`, and a separator is put in between where `base` does not end in one.
pub open spec fn join(base: Seq<char>, p: Seq<char>) -> Seq<char> {
    if is_absolute(p) {
        p
    } else if base.len() > 0 && base.last() != '/' {
        base + seq!['/'] + p
    } else {
        base + p
    }
}

/// `p` relative to `base`: defined, as for `Path::strip_prefix`, when the
/// components of `base` open those of `p`. The result is the rest of the
/// components of `p`, written anew with one `/` between each two. Its
/// components are those of the slice that `Path::strip_prefix` gives, but its
/// text can differ from that slice where `p` holds `//` or `/./` (`a/b` for
/// `a//b`).
pub open spec fn strip_prefix(p: Seq<char>, base: Seq<char>) -> Option<Seq<char>> {
    let pc = components(p);
    let bc = components(base);
    if bc.len() <= pc.len() && pc.take(bc.len() as int) == bc {
        Some(render(pc.skip(bc.len() as int)))
    } else {
        None
    }
}

/// The parent of `p`: as for `Path::parent`, there is none when `p` has no
/// component or ends at the root. Otherwise it is the components of `p`
/// without the last one, written anew with one `/` between each two. Its
/// components are those of the slice that `Path::parent` gives, but its text
/// can differ from that slice where `p` holds `//` or `/./` (`/a/b` for
/// `/a//b/c`).
pub open spec fn parent(p: Seq<char>) -> Option<Seq<char>> {
    let pc = components(p);
    if pc.len() == 0 || pc.last() == root_dir() {
        None
    } else {
        Some(render(pc.drop_last()))
    }
}

/// The characters of each string.
pub open spec fn views(v: Seq<String>) -> Seq<Seq<char>> {
    v.map_values(|s: String| s@)
}

proof fn lemma_segments_nonempty(s: Seq<char>)
    ensures
        segments(s).len() >= 1,
    decreases s.len(),
{
    if s.len() > 0 {
        lemma_segments_nonempty(s.drop_last());
    }
}

pub proof fn lemma_views_push(v: Seq<String>, x: String)
    ensures
        views(v.push(x)) == views(v).push(x@),
{
    assert(views(v.push(x)) =~= views(v).push(x@));
}

/// Whether `p` starts at the root.
pub fn path_is_absolute(p: &str) -> (b: bool)
    ensures
        b == is_absolute(p@),
{
    p.unicode_len() > 0 && p.get_char(0) == '/'
}

/// `base` joined with `p`.
pub fn path_join(base: &str, p: &str) -> (r: String)
    ensures
        r@ == join(base@, p@),
{
    if path_is_absolute(p) {
        return String::from_str(p);
    }
    let n = base.unicode_len();
    let mut r = String::from_str(base);
    if n > 0 && base.get_char(n - 1) != '/' {
        r.append("/");
        proof {
            reveal_strlit("/");
        }
        assert("/"@ =~= seq!['/']);
    }
    r.append(p);
    r
}

/// The components of `p`.
pub fn path_components(p: &str) -> (r: Vec<String>)
    ensures
        views(r@) == components(p@),
{
    let cs = chars_of(p);
    let n = cs.len();
    let mut out: Vec<String> = Vec::new();
    if n > 0 && cs[0] == '/' {
        let root = String::from_str("/");
        proof {
            reveal_strlit("/");
            assert(root@ =~= root_dir());
            lemma_views_push(out@, root);
        }
        out.push(root);
    } else if n > 0 && cs[0] == '.' && (n == 1 || cs[1] == '/') {
        let cur = String::from_str(".");
        proof {
            reveal_strlit(".");
            assert(cur@ =~= cur_dir());
            lemma_views_push(out@, cur);
        }
        out.push(cur);
    }
    let ghost lead = views(out@);
    assert(lead =~= leading_components(p@));
    let ghost mut closed: Seq<Seq<char>> = Seq::empty();
    let mut start: usize = 0;
    let mut i: usize = 0;
    assert(p@.take(0) =~= Seq::<char>::empty());
    while i < n
        invariant
            n == cs@.len(),
            cs@ == p@,
            start <= i <= n,
            segments(p@.take(i as int)) == closed.push(p@.subrange(start as int, i as int)),
            views(out@) == lead + named(closed),
        decreases n - i,
    {
        let ghost prefix = p@.take(i as int);
        assert(p@.take(i + 1).drop_last() =~= prefix);
        assert(p@.take(i + 1).last() == cs@[i as int]);
        if cs[i] == '/' {
            let ghost seg = p@.subrange(start as int, i as int);
            if !(i == start || (i == start + 1 && cs[start] == '.')) {
                let piece = String::from_str(p.substring_char(start, i));
                proof {
                    lemma_views_push(out@, piece);
                    assert(seg.len() == i - start);
                    assert(is_named(seg)) by {
                        if i == start + 1 {
                            assert(seg[0] == cs@[start as int]);
                            assert(seg != seq!['.']);
                        }
                    }
                    assert(closed.push(seg).drop_last() =~= closed);
                    assert(lead + named(closed).push(seg) =~= (lead + named(closed)).push(seg));
                }
                out.push(piece);
            } else {
                proof {
                    assert(!is_named(seg)) by {
                        if i == start + 1 {
                            assert(seg =~= seq!['.']);
                        }
                    }
                    assert(closed.push(seg).drop_last() =~= closed);
                }
            }
            proof {
                closed = closed.push(seg);
                assert(p@.subrange(i + 1, i + 1) =~= Seq::<char>::empty());
            }
            start = i + 1;
        } else {
            proof {
                let seg = p@.subrange(start as int, i as int);
                assert(seg.push(cs@[i as int]) =~= p@.subrange(start as int, i + 1));
                assert(closed.push(seg).update(closed.len() as int, seg.push(cs@[i as int]))
                    =~= closed.push(p@.subrange(start as int, i + 1)));
            }
        }
        i = i + 1;
    }
    assert(p@.take(n as int) =~= p@);
    let ghost seg = p@.subrange(start as int, n as int);
    proof {
        assert(closed.push(seg).drop_last() =~= closed);
    }
    if !(n == start || (n == start + 1 && cs[start] == '.')) {
        let piece = String::from_str(p.substring_char(start, n));
        proof {
            lemma_views_push(out@, piece);
            assert(seg.len() == n - start);
            assert(is_named(seg)) by {
                if n == start + 1 {
                    assert(seg[0] == cs@[start as int]);
                    assert(seg != seq!['.']);
                }
            }
            assert(lead + named(closed).push(seg) =~= (lead + named(closed)).push(seg));
        }
        out.push(piece);
    } else {
        proof {
            assert(!is_named(seg)) by {
                if n == start + 1 {
                    assert(seg =~= seq!['.']);
                }
            }
        }
    }
    out
}

/// Whether a component is the root directory.
pub fn is_root_component(c: &String) -> (b: bool)
    ensures
        b == (c@ == root_dir()),
{
    let s = c.as_str();
    if s.unicode_len() == 1 && s.get_char(0) == '/' {
        assert(c@ =~= root_dir());
        true
    } else {
        false
    }
}

/// The path spelled by `parts[from..to]`.
pub fn render_components(parts: &Vec<String>, from: usize, to: usize) -> (r: String)
    requires
        from <= to <= parts@.len(),
    ensures
        r@ == render(views(parts@).subrange(from as int, to as int)),
{
    let ghost cs = views(parts@).subrange(from as int, to as int);
    let rooted = from < to && is_root_component(&parts[from]);
    let mut r = String::new();
    let mut start = from;
    if rooted {
        r.append("/");
        proof {
            reveal_strlit("/");
            assert(r@ =~= seq!['/']);
        }
        start = from + 1;
    }
    let ghost lead = r@;
    let ghost sub = views(parts@).subrange(start as int, to as int);
    proof {
        if rooted {
            assert(cs[0] == views(parts@)[from as int]);
            assert(cs.skip(1) =~= sub);
        } else {
            assert(cs =~= sub);
        }
        assert(sub.take(0) =~= Seq::<Seq<char>>::empty());
    }
    let mut k = start;
    while k < to
        invariant
            start <= k <= to <= parts@.len(),
            sub == views(parts@).subrange(start as int, to as int),
            r@ == lead + join_components(sub.take(k - start)),
        decreases to - k,
    {
        let ghost t = sub.take(k + 1 - start);
        proof {
            assert(t.drop_last() =~= sub.take(k - start));
            assert(t.last() == parts@[k as int]@);
        }
        if k > start {
            r.append("/");
            proof {
                reveal_strlit("/");
                assert("/"@ =~= seq!['/']);
            }
        } else {
            proof {
                assert(sub.take(0) =~= Seq::<Seq<char>>::empty());
            }
        }
        r.append(parts[k].as_str());
        proof {
            if k > start {
                assert(r@ =~= lead + join_components(t));
            } else {
                assert(r@ =~= lead + join_components(t));
            }
        }
        k = k + 1;
    }
    proof {
        assert(sub.take(to - start) =~= sub);
    }
    r
}

/// `p` relative to `base`, when the components of `base` open those of `p`.
pub fn path_strip_prefix(p: &str, base: &str) -> (r: Option<String>)
    ensures
        r matches Some(s) ==> strip_prefix(p@, base@) == Some(s@),
        r is None ==> strip_prefix(p@, base@) is None,
{
    let pc = path_components(p);
    let bc = path_components(base);
    if bc.len() > pc.len() {
        return None;
    }
    let mut k: usize = 0;
    while k < bc.len()
        invariant
            k <= bc@.len() <= pc@.len(),
            views(pc@) == components(p@),
            views(bc@) == components(base@),
            forall|j: int| 0 <= j < k ==> pc@[j]@ == bc@[j]@,
        decreases bc@.len() - k,
    {
        if !(pc[k] == bc[k]) {
            proof {
                let a = views(pc@).take(bc@.len() as int);
                assert(a[k as int] == pc@[k as int]@);
                assert(views(bc@)[k as int] == bc@[k as int]@);
                assert(a != views(bc@));
            }
            return None;
        }
        k = k + 1;
    }
    proof {
        assert(views(pc@).take(bc@.len() as int) =~= views(bc@));
        assert(views(pc@).skip(bc@.len() as int) =~= views(pc@).subrange(
            bc@.len() as int,
            pc@.len() as int,
        ));
    }
    Some(render_components(&pc, bc.len(), pc.len()))
}

/// The parent of `p`, if it has one.
pub fn path_parent(p: &str) -> (r: Option<String>)
    ensures
        r matches Some(s) ==> parent(p@) == Some(s@),
        r is None ==> parent(p@) is None,
{
    let pc = path_components(p);
    let n = pc.len();
    if n == 0 || is_root_component(&pc[n - 1]) {
        return None;
    }
    proof {
        assert(views(pc@).drop_last() =~= views(pc@).subrange(0, n - 1));
    }
    Some(render_components(&pc, 0, n - 1))
}

proof fn lemma_segments_concat(b: Seq<char>, p: Seq<char>)
    ensures
        segments(b + seq!['/'] + p) == segments(b) + segments(p),
    decreases p.len(),
{
    let s = b + seq!['/'] + p;
    if p.len() == 0 {
        assert(s =~= b.push('/'));
        assert(s.drop_last() =~= b);
        assert(segments(b).push(Seq::<char>::empty()) =~= segments(b) + segments(p));
    } else {
        let q = p.drop_last();
        lemma_segments_concat(b, q);
        lemma_segments_nonempty(q);
        assert(s.drop_last() =~= b + seq!['/'] + q);
        assert(s.last() == p.last());
        let prev = segments(b) + segments(q);
        if p.last() == '/' {
            assert(prev.push(Seq::<char>::empty()) =~= segments(b) + segments(p));
        } else {
            let sq = segments(q);
            assert(prev.update(prev.len() - 1, prev.last().push(p.last())) =~= segments(b) + sq.update(
                sq.len() - 1,
                sq.last().push(p.last()),
            ));
        }
    }
}

proof fn lemma_named_concat(x: Seq<Seq<char>>, y: Seq<Seq<char>>)
    ensures
        named(x + y) == named(x) + named(y),
    decreases y.len(),
{
    if y.len() == 0 {
        assert(x + y =~= x);
        assert(named(x) + named(y) =~= named(x));
    } else {
        lemma_named_concat(x, y.drop_last());
        assert((x + y).drop_last() =~= x + y.drop_last());
        assert((x + y).last() == y.last());
        if is_named(y.last()) {
            assert(named(x) + named(y.drop_last()).push(y.last()) =~= (named(x) + named(
                y.drop_last(),
            )).push(y.last()));
        }
    }
}

/// The components of `base` joined with a relative `p` are those of `base`
/// followed by the named segments of `p`.
pub proof fn lemma_join_components(base: Seq<char>, p: Seq<char>)
    requires
        base.len() > 0,
        !is_absolute(p),
    ensures
        components(join(base, p)) == components(base) + named(segments(p)),
        leading_components(join(base, p)) == leading_components(base),
        named(segments(join(base, p))) == named(segments(base)) + named(segments(p)),
{
    let s = join(base, p);
    if base.last() != '/' {
        assert(s == base + seq!['/'] + p);
        lemma_segments_concat(base, p);
        lemma_named_concat(segments(base), segments(p));
        assert(s[0] == base[0]);
        if base.len() == 1 {
            assert(s[1] == '/');
        } else {
            assert(s[1] == base[1]);
        }
        assert(leading_components(s) == leading_components(base));
    } else {
        let b = base.drop_last();
        assert(s == base + p);
        assert(s =~= b + seq!['/'] + p);
        assert(base =~= b.push('/'));
        assert(base.drop_last() =~= b);
        lemma_segments_concat(b, p);
        lemma_named_concat(segments(b), segments(p));
        assert(segments(base) == segments(b).push(Seq::<char>::empty()));
        assert(segments(base).drop_last() =~= segments(b));
        assert(named(segments(base)) == named(segments(b)));
        assert(s[0] == base[0]);
        if base.len() >= 2 {
            assert(s[1] == base[1]);
        }
        assert(leading_components(s) == leading_components(base));
    }
    assert(components(s) =~= components(base) + named(segments(p)));
}

/// A relative path joined onto a base is read back relative to that base,
/// with its empty and `.` segments dropped.
pub proof fn lemma_strip_joined(base: Seq<char>, p: Seq<char>)
    requires
        base.len() > 0,
        !is_absolute(p),
    ensures
        strip_prefix(join(base, p), base) == Some(render(named(segments(p)))),
{
    lemma_join_components(base, p);
    let bc = components(base);
    let pc = components(join(base, p));
    assert(pc.take(bc.len() as int) =~= bc);
    assert(pc.skip(bc.len() as int) =~= named(segments(p)));
}

/// A component that a path can hold past its first: not empty, free of `/`,
/// and not `.`.
pub open spec fn is_plain_component(c: Seq<char>) -> bool {
    c.len() > 0 && !c.contains('/') && c != cur_dir()
}

proof fn lemma_segments_free_of_separator(s: Seq<char>)
    ensures
        forall|i: int| 0 <= i < segments(s).len() ==> !(#[trigger] segments(s)[i]).contains('/'),
    decreases s.len(),
{
    if s.len() > 0 {
        let t = s.drop_last();
        lemma_segments_free_of_separator(t);
        lemma_segments_nonempty(t);
        let prev = segments(t);
        if s.last() != '/' {
            let last = prev.last().push(s.last());
            assert(!last.contains('/')) by {
                if last.contains('/') {
                    let k = choose|k: int| 0 <= k < last.len() && last[k] == '/';
                    if k < prev.last().len() {
                        assert(prev.last()[k] == '/');
                        assert(prev[prev.len() - 1] == prev.last());
                    }
                }
            }
        } else {
            assert(!Seq::<char>::empty().contains('/'));
        }
    }
}

proof fn lemma_named_plain(segs: Seq<Seq<char>>)
    requires
        forall|i: int| 0 <= i < segs.len() ==> !(#[trigger] segs[i]).contains('/'),
    ensures
        forall|i: int| 0 <= i < named(segs).len() ==> is_plain_component(#[trigger] named(segs)[i]),
    decreases segs.len(),
{
    if segs.len() > 0 {
        let d = segs.drop_last();
        assert forall|i: int| 0 <= i < d.len() implies !(#[trigger] d[i]).contains('/') by {
            assert(d[i] == segs[i]);
        }
        lemma_named_plain(d);
        assert(segs[segs.len() - 1] == segs.last());
        assert forall|i: int| 0 <= i < named(segs).len() implies is_plain_component(
            #[trigger] named(segs)[i],
        ) by {
            if i < named(d).len() {
                assert(named(segs)[i] == named(d)[i]);
            } else {
                assert(named(segs)[i] == segs.last());
            }
        }
    }
}

/// Every named segment of a path is a plain component.
pub proof fn lemma_named_segments_plain(s: Seq<char>)
    ensures
        forall|i: int| 0 <= i < named(segments(s)).len() ==> is_plain_component(
            #[trigger] named(segments(s))[i],
        ),
{
    lemma_segments_free_of_separator(s);
    lemma_named_plain(segments(s));
}

proof fn lemma_segments_plain(x: Seq<char>)
    requires
        !x.contains('/'),
    ensures
        segments(x) == seq![x],
    decreases x.len(),
{
    if x.len() > 0 {
        let d = x.drop_last();
        assert(!d.contains('/')) by {
            if d.contains('/') {
                let k = choose|k: int| 0 <= k < d.len() && d[k] == '/';
                assert(x[k] == '/');
            }
        }
        lemma_segments_plain(d);
        assert(x[x.len() - 1] == x.last());
        assert(d.push(x.last()) =~= x);
        assert(seq![d].update(0, d.push(x.last())) =~= seq![x]);
    } else {
        assert(x =~= Seq::<char>::empty());
    }
}

proof fn lemma_segments_join(cs: Seq<Seq<char>>)
    requires
        cs.len() > 0,
        forall|i: int| 0 <= i < cs.len() ==> !(#[trigger] cs[i]).contains('/'),
    ensures
        segments(join_components(cs)) == cs,
    decreases cs.len(),
{
    if cs.len() == 1 {
        lemma_segments_plain(cs[0]);
        assert(seq![cs[0]] =~= cs);
    } else {
        let d = cs.drop_last();
        assert forall|i: int| 0 <= i < d.len() implies !(#[trigger] d[i]).contains('/') by {
            assert(d[i] == cs[i]);
        }
        lemma_segments_join(d);
        lemma_segments_concat(join_components(d), cs.last());
        assert(cs[cs.len() - 1] == cs.last());
        lemma_segments_plain(cs.last());
        assert(d + seq![cs.last()] =~= cs);
    }
}

proof fn lemma_named_all(cs: Seq<Seq<char>>)
    requires
        forall|i: int| 0 <= i < cs.len() ==> is_named(#[trigger] cs[i]),
    ensures
        named(cs) == cs,
    decreases cs.len(),
{
    if cs.len() > 0 {
        let d = cs.drop_last();
        assert forall|i: int| 0 <= i < d.len() implies is_named(#[trigger] d[i]) by {
            assert(d[i] == cs[i]);
        }
        lemma_named_all(d);
        assert(cs[cs.len() - 1] == cs.last());
        assert(d.push(cs.last()) =~= cs);
    }
}

/// A rooted path written from plain components is read back as the same
/// components.
pub proof fn lemma_components_of_rooted(cs: Seq<Seq<char>>)
    requires
        forall|i: int| 0 <= i < cs.len() ==> is_plain_component(#[trigger] cs[i]),
    ensures
        components(render(seq![root_dir()] + cs)) == seq![root_dir()] + cs,
{
    let all = seq![root_dir()] + cs;
    assert(all[0] == root_dir());
    assert(all.skip(1) =~= cs);
    let j = join_components(cs);
    let s = render(all);
    assert(s == seq!['/'] + j);
    assert(s =~= Seq::<char>::empty() + seq!['/'] + j);
    lemma_segments_concat(Seq::<char>::empty(), j);
    let e = Seq::<char>::empty();
    assert(segments(e) == seq![e]);
    assert(is_absolute(s));
    assert(seq![e].drop_last() =~= Seq::<Seq<char>>::empty());
    assert(named(seq![e]) == named(Seq::<Seq<char>>::empty()));
    assert(named(seq![e]) =~= Seq::<Seq<char>>::empty());
    if cs.len() == 0 {
        assert(j == e);
        assert(segments(s) == seq![e] + seq![e]);
        lemma_named_concat(seq![e], seq![e]);
        assert(named(segments(s)) =~= Seq::<Seq<char>>::empty());
        assert(components(s) =~= all);
    } else {
        assert forall|i: int| 0 <= i < cs.len() implies !(#[trigger] cs[i]).contains('/') by {
            assert(is_plain_component(cs[i]));
        }
        lemma_segments_join(cs);
        lemma_named_concat(seq![e], cs);
        assert forall|i: int| 0 <= i < cs.len() implies is_named(#[trigger] cs[i]) by {
            assert(is_plain_component(cs[i]));
        }
        lemma_named_all(cs);
        assert(components(s) =~= all);
    }
}

proof fn lemma_join_first(cs: Seq<Seq<char>>)
    requires
        cs.len() > 0,
    ensures
        join_components(cs).len() >= cs[0].len(),
        join_components(cs).take(cs[0].len() as int) == cs[0],
        cs.len() > 1 ==> join_components(cs)[cs[0].len() as int] == '/',
    decreases cs.len(),
{
    if cs.len() > 1 {
        let d = cs.drop_last();
        lemma_join_first(d);
        assert(d[0] == cs[0]);
        let j = join_components(d) + seq!['/'] + cs.last();
        assert(join_components(cs) == j);
        assert(j.take(cs[0].len() as int) =~= join_components(d).take(cs[0].len() as int));
        if d.len() == 1 {
            assert(join_components(d) == cs[0]);
        }
    } else {
        assert(join_components(cs) == cs[0]);
        assert(cs[0].take(cs[0].len() as int) =~= cs[0]);
    }
}

/// A relative path written from plain components is read back as the same
/// components.
pub proof fn lemma_components_of_relative(cs: Seq<Seq<char>>)
    requires
        cs.len() > 0,
        forall|i: int| 0 <= i < cs.len() ==> is_plain_component(#[trigger] cs[i]),
    ensures
        render(cs) == join_components(cs),
        components(render(cs)) == cs,
{
    let c0 = cs[0];
    assert(is_plain_component(c0));
    assert(c0 != root_dir()) by {
        assert(root_dir()[0] == '/');
        if c0 == root_dir() {
            assert(c0.contains('/'));
        }
    }
    let s = join_components(cs);
    lemma_join_first(cs);
    assert(s[0] == c0[0]) by {
        assert(s.take(c0.len() as int)[0] == s[0]);
    }
    assert(!is_absolute(s)) by {
        if s[0] == '/' {
            assert(c0.contains('/'));
        }
    }
    assert(!opens_with_cur_dir(s)) by {
        if s[0] == '.' {
            if c0.len() == 1 {
                assert(c0 =~= cur_dir());
            } else {
                assert(s[1] == c0[1]) by {
                    assert(s.take(c0.len() as int)[1] == s[1]);
                }
                if s[1] == '/' {
                    assert(c0.contains('/'));
                }
            }
        }
    }
    assert forall|i: int| 0 <= i < cs.len() implies !(#[trigger] cs[i]).contains('/') by {
        assert(is_plain_component(cs[i]));
    }
    lemma_segments_join(cs);
    assert forall|i: int| 0 <= i < cs.len() implies is_named(#[trigger] cs[i]) by {
        assert(is_plain_component(cs[i]));
    }
    lemma_named_all(cs);
    assert(components(s) =~= cs);
}

} // verus!
