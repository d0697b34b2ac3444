use vstd::prelude::*;
use vstd::string::StrSliceExecFns;

verus! {

/// Character-wise equality of two string slices.
pub fn str_eq(a: &str, b: &str) -> (r: bool)
    ensures
        r == (a@ == b@),
{
    let n = a.unicode_len();
    if n != b.unicode_len() {
        return false;
    }
    let mut i: usize = 0;
    while i < n
        invariant
            n == a@.len(),
            n == b@.len(),
            i <= n,
            a@.subrange(0, i as int) == b@.subrange(0, i as int),
        decreases n - i,
    {
        if a.get_char(i) != b.get_char(i) {
            assert(a@[i as int] != b@[i as int]);
            return false;
        }
        assert(a@.subrange(0, i + 1) == a@.subrange(0, i as int).push(a@[i as int]));
        assert(b@.subrange(0, i + 1) == b@.subrange(0, i as int).push(b@[i as int]));
        i = i + 1;
    }
    assert(a@ == a@.subrange(0, n as int));
    assert(b@ == b@.subrange(0, n as int));
    true
}


/// The views of a sequence of strings.
pub open spec fn views(v: Seq<String>) -> Seq<Seq<char>> {
    v.map_values(|x: String| x@)
}

/// Unicode's `White_Space` property.
pub open spec fn is_white_space(c: char) -> bool {
    ('\u{9}' <= c && c <= '\u{d}') || c == ' ' || c == '\u{85}' || c == '\u{a0}'
        || c == '\u{1680}' || ('\u{2000}' <= c && c <= '\u{200a}') || c == '\u{2028}'
        || c == '\u{2029}' || c == '\u{202f}' || c == '\u{205f}' || c == '\u{3000}'
}

/// Whether `c` has Unicode's `White_Space` property.
pub fn white_space(c: char) -> (r: bool)
    ensures
        r == is_white_space(c),
{
    ('\u{9}' <= c && c <= '\u{d}') || c == ' ' || c == '\u{85}' || c == '\u{a0}'
        || c == '\u{1680}' || ('\u{2000}' <= c && c <= '\u{200a}') || c == '\u{2028}'
        || c == '\u{2029}' || c == '\u{202f}' || c == '\u{205f}' || c == '\u{3000}'
}

/// What separates the fields of a text.
#[derive(Clone, Copy, PartialEq, Eq, Structural)]
pub enum Separator {
    /// A `:`, as between the identifiers of a dependency list.
    Colon,
    /// A run of white space, as between the words of a command's output.
    WhiteSpace,
}

impl Separator {
    pub open spec fn separates(self, c: char) -> bool {
        match self {
            Separator::Colon => c == ':',
            Separator::WhiteSpace => is_white_space(c),
        }
    }

    pub fn is_separator(self, c: char) -> (r: bool)
        ensures
            r == self.separates(c),
    {
        match self {
            Separator::Colon => c == ':',
            Separator::WhiteSpace => white_space(c),
        }
    }
}

/// Scanning `s` from the left: the fields completed so far, and the field
/// still open at the end of `s`.
pub open spec fn scan(s: Seq<char>, sep: Separator) -> (Seq<Seq<char>>, Seq<char>)
    decreases s.len(),
{
    if s.len() == 0 {
        (Seq::empty(), Seq::empty())
    } else {
        let (done, open) = scan(s.drop_last(), sep);
        if sep.separates(s.last()) {
            (if open.len() > 0 { done.push(open) } else { done }, Seq::empty())
        } else {
            (done, open.push(s.last()))
        }
    }
}

/// The non-empty maximal runs of `s` that hold no separator, in order.
pub open spec fn fields(s: Seq<char>, sep: Separator) -> Seq<Seq<char>> {
    let (done, open) = scan(s, sep);
    if open.len() > 0 { done.push(open) } else { done }
}

/// Splits `s` into its fields: the non-empty runs between separators.
pub fn split_fields(s: &str, sep: Separator) -> (r: Vec<String>)
    ensures
        views(r@) == fields(s@, sep),
{
    let n = s.unicode_len();
    let mut out: Vec<String> = Vec::new();
    let mut start: usize = 0;
    let mut i: usize = 0;
    while i < n
        invariant
            n == s@.len(),
            start <= i <= n,
            scan(s@.subrange(0, i as int), sep) == (views(out@), s@.subrange(start as int, i as int)),
        decreases n - i,
    {
        let c = s.get_char(i);
        assert(s@.subrange(0, i + 1).drop_last() == s@.subrange(0, i as int));
        if sep.is_separator(c) {
            if start < i {
                let field = s.substring_char(start, i).to_owned();
                out.push(field);
                assert(views(out@) == views(out@.drop_last()).push(field@));
            }
            start = i + 1;
        } else {
            assert(s@.subrange(start as int, i + 1) == s@.subrange(start as int, i as int).push(c));
        }
        i = i + 1;
    }
    assert(s@.subrange(0, n as int) == s@);
    if start < n {
        let field = s.substring_char(start, n).to_owned();
        out.push(field);
        assert(views(out@) == views(out@.drop_last()).push(field@));
    }
    out
}

/// `k` is a prefix of `s`.
pub open spec fn is_prefix_of(k: Seq<char>, s: Seq<char>) -> bool {
    k.len() <= s.len() && s.subrange(0, k.len() as int) == k
}

/// Whether `s` starts with `k`.
pub fn starts_with(s: &str, k: &str) -> (r: bool)
    ensures
        r == is_prefix_of(k@, s@),
{
    let n = k.unicode_len();
    if n > s.unicode_len() {
        return false;
    }
    let head = s.substring_char(0, n);
    str_eq(head, k)
}

/// Copies a list of strings.
pub fn copy_strings(v: &Vec<String>) -> (r: Vec<String>)
    ensures
        views(r@) == views(v@),
{
    let mut out: Vec<String> = Vec::new();
    let mut i: usize = 0;
    while i < v.len()
        invariant
            i <= v@.len(),
            views(out@) == views(v@.subrange(0, i as int)),
        decreases v.len() - i,
    {
        out.push(v[i].clone());
        assert(views(v@.subrange(0, i + 1)) == views(v@.subrange(0, i as int)).push(v@[i as int]@));
        assert(views(out@) == views(out@.drop_last()).push(v@[i as int]@));
        i = i + 1;
    }
    assert(v@.subrange(0, v@.len() as int) == v@);
    out
}

/// The identifiers of `ds`, separated by `:`.
pub open spec fn join_colon(ds: Seq<Seq<char>>) -> Seq<char>
    decreases ds.len(),
{
    if ds.len() == 0 {
        Seq::empty()
    } else if ds.len() == 1 {
        ds[0]
    } else {
        join_colon(ds.drop_last()) + seq![':'] + ds.last()
    }
}

/// Writes a dependency list in its colon-separated form.
pub fn join_with_colons(ds: &Vec<String>) -> (r: String)
    ensures
        r@ == join_colon(views(ds@)),
{
    let mut out = String::new();
    let mut i: usize = 0;
    while i < ds.len()
        invariant
            i <= ds@.len(),
            out@ == join_colon(views(ds@.subrange(0, i as int))),
        decreases ds.len() - i,
    {
        let ghost prev = views(ds@.subrange(0, i as int));
        assert(views(ds@.subrange(0, i + 1)) == prev.push(ds@[i as int]@));
        assert(views(ds@.subrange(0, i + 1)).drop_last() == prev);
        if i > 0 {
            out.append(":");
            proof {
                reveal_strlit(":");
            }
        }
        out.append(ds[i].as_str());
        i = i + 1;
    }
    assert(ds@.subrange(0, ds@.len() as int) == ds@);
    out
}


/// `f` is a possible field: non-empty and free of separators.
pub open spec fn is_field(f: Seq<char>, sep: Separator) -> bool {
    f.len() > 0 && forall|k: int| 0 <= k < f.len() ==> !sep.separates(#[trigger] f[k])
}

proof fn lemma_scan_extend(p: Seq<char>, y: Seq<char>, sep: Separator)
    requires
        forall|k: int| 0 <= k < y.len() ==> !sep.separates(#[trigger] y[k]),
    ensures
        scan(p + y, sep) == (scan(p, sep).0, scan(p, sep).1 + y),
    decreases y.len(),
{
    if y.len() == 0 {
        assert(p + y == p);
        assert(scan(p, sep).1 + y == scan(p, sep).1);
    } else {
        let y0 = y.drop_last();
        lemma_scan_extend(p, y0, sep);
        assert((p + y).drop_last() == p + y0);
        assert((p + y).last() == y.last());
        assert(scan(p, sep).1 + y == (scan(p, sep).1 + y0).push(y.last()));
    }
}

proof fn lemma_scan_join(ds: Seq<Seq<char>>)
    requires
        ds.len() > 0,
        forall|k: int| 0 <= k < ds.len() ==> is_field(#[trigger] ds[k], Separator::Colon),
    ensures
        scan(join_colon(ds), Separator::Colon) == (ds.drop_last(), ds.last()),
    decreases ds.len(),
{
    let sep = Separator::Colon;
    if ds.len() == 1 {
        lemma_scan_extend(Seq::empty(), ds[0], sep);
        assert(Seq::<char>::empty() + ds[0] == ds[0]);
        assert(ds.drop_last() == Seq::<Seq<char>>::empty());
    } else {
        let front = ds.drop_last();
        assert(forall|k: int| 0 <= k < front.len() ==> front[k] == ds[k]);
        lemma_scan_join(front);
        let p = join_colon(front) + seq![':'];
        assert(p.drop_last() == join_colon(front));
        assert(p.last() == ':');
        assert(is_field(front.last(), sep));
        assert(front.drop_last().push(front.last()) == front);
        assert(scan(p, sep) == (front, Seq::<char>::empty()));
        assert(is_field(ds.last(), sep));
        lemma_scan_extend(p, ds.last(), sep);
        assert(Seq::<char>::empty() + ds.last() == ds.last());
    }
}

/// Splitting the colon-separated form of a list of fields gives the list back.
pub proof fn lemma_fields_of_join(ds: Seq<Seq<char>>)
    requires
        forall|k: int| 0 <= k < ds.len() ==> is_field(#[trigger] ds[k], Separator::Colon),
    ensures
        fields(join_colon(ds), Separator::Colon) == ds,
{
    if ds.len() == 0 {
        assert(join_colon(ds) == Seq::<char>::empty());
    } else {
        lemma_scan_join(ds);
        assert(ds.drop_last().push(ds.last()) == ds);
    }
}

} // verus!
