//! Semantic diff: symbol-level change classification between two versions of a file.
use vstd::prelude::*;
use crate::text::owned;

verus! {

/// A symbol found in one version of a file.
#[derive(Debug)]
pub struct SymbolMatch {
    pub name: String,
    pub kind: String,
    pub line_start: usize,
    pub line_end: usize,
}

/// A symbol-level change detected between two versions.
#[derive(Debug)]
pub struct SymbolChange {
    pub name: String,
    pub kind: String,
    pub change_type: ChangeType,
    pub file_path: String,
    pub line_start: usize,
}

/// The type of change that happened to a symbol.
#[derive(Debug, Clone, Copy, PartialEq, Eq, Structural)]
pub enum ChangeType {
    Added,
    Removed,
    Modified,
}

pub struct SymbolV {
    pub name: Seq<char>,
    pub kind: Seq<char>,
    pub line_start: usize,
    pub line_end: usize,
}

pub struct ChangeV {
    pub name: Seq<char>,
    pub kind: Seq<char>,
    pub change_type: ChangeType,
    pub file_path: Seq<char>,
    pub line_start: usize,
}

impl View for SymbolMatch {
    type V = SymbolV;

    open spec fn view(&self) -> SymbolV {
        SymbolV {
            name: self.name@,
            kind: self.kind@,
            line_start: self.line_start,
            line_end: self.line_end,
        }
    }
}

impl View for SymbolChange {
    type V = ChangeV;

    open spec fn view(&self) -> ChangeV {
        ChangeV {
            name: self.name@,
            kind: self.kind@,
            change_type: self.change_type,
            file_path: self.file_path@,
            line_start: self.line_start,
        }
    }
}

pub open spec fn symbols_view(v: Seq<SymbolMatch>) -> Seq<SymbolV> {
    v.map_values(|s: SymbolMatch| s@)
}

pub open spec fn changes_view(v: Seq<SymbolChange>) -> Seq<ChangeV> {
    v.map_values(|c: SymbolChange| c@)
}

/// Two symbols are the same when they have the same name and kind.
pub open spec fn same_symbol(a: SymbolV, b: SymbolV) -> bool {
    a.name == b.name && a.kind == b.kind
}

/// Whether `syms` holds a symbol with the name and kind of `x`.
pub open spec fn has_same(syms: Seq<SymbolV>, x: SymbolV) -> bool {
    exists|i: int| 0 <= i < syms.len() && same_symbol(syms[i], x)
}

/// Whether the closed line range of `x` meets some hunk `[start, start + count]`.
pub open spec fn touched(x: SymbolV, hunks: Seq<(usize, usize)>) -> bool {
    exists|i: int|
        0 <= i < hunks.len() && x.line_start <= hunks[i].0 + hunks[i].1 && hunks[i].0 <= x.line_end
}

/// The symbols of `s` that satisfy `p`, in order.
pub open spec fn keep(s: Seq<SymbolV>, p: spec_fn(SymbolV) -> bool) -> Seq<SymbolV>
    decreases s.len(),
{
    if s.len() == 0 {
        Seq::empty()
    } else if p(s.last()) {
        keep(s.drop_last(), p).push(s.last())
    } else {
        keep(s.drop_last(), p)
    }
}

/// Holds of symbols that have no same symbol in `other`.
pub open spec fn missing_from(other: Seq<SymbolV>) -> spec_fn(SymbolV) -> bool {
    |x: SymbolV| !has_same(other, x)
}

/// Head symbols with no same symbol in base.
pub open spec fn added_symbols(base: Seq<SymbolV>, head: Seq<SymbolV>) -> Seq<SymbolV> {
    keep(head, missing_from(base))
}

/// Base symbols with no same symbol in head.
pub open spec fn removed_symbols(base: Seq<SymbolV>, head: Seq<SymbolV>) -> Seq<SymbolV> {
    keep(base, missing_from(head))
}

/// Holds of head symbols present in base (by name and kind) whose lines meet a hunk.
pub open spec fn is_modified(
    base: Seq<SymbolV>,
    head: Seq<SymbolV>,
    hunks: Seq<(usize, usize)>,
) -> spec_fn(SymbolV) -> bool {
    |x: SymbolV| has_same(base, x) && touched(x, hunks)
}

/// Whether the hunk `h` meets the lines of `x`.
pub open spec fn hunk_meets(x: SymbolV, h: (usize, usize)) -> bool {
    x.line_start <= h.0 + h.1 && h.0 <= x.line_end
}

/// Whether, looking for a hunk that meets `x` in order, some hunk's end
/// `start + count` overflows `usize` before one is found.
pub open spec fn overflow_before_touch(x: SymbolV, hunks: Seq<(usize, usize)>) -> bool {
    exists|i: int|
        0 <= i < hunks.len() && hunks[i].0 + hunks[i].1 > usize::MAX && forall|j: int|
            0 <= j < i ==> !hunk_meets(x, #[trigger] hunks[j])
}

/// Whether every hunk end that the diff computes fits in `usize`: hunk ends
/// are only computed for head symbols that are in base, hunk by hunk until one
/// meets the symbol.
pub open spec fn hunk_ends_fit(base: Seq<SymbolV>, head: Seq<SymbolV>, hunks: Seq<(usize, usize)>) -> bool {
    forall|k: int| 0 <= k < head.len() && has_same(base, #[trigger] head[k]) ==> !overflow_before_touch(head[k], hunks)
}

/// Head symbols that were modified.
pub open spec fn modified_symbols(
    base: Seq<SymbolV>,
    head: Seq<SymbolV>,
    hunks: Seq<(usize, usize)>,
) -> Seq<SymbolV> {
    keep(head, is_modified(base, head, hunks))
}

/// The changes recording each symbol with the given type and file.
pub open spec fn tag(s: Seq<SymbolV>, t: ChangeType, path: Seq<char>) -> Seq<ChangeV> {
    s.map_values(
        |x: SymbolV|
            ChangeV {
                name: x.name,
                kind: x.kind,
                change_type: t,
                file_path: path,
                line_start: x.line_start,
            },
    )
}

/// All changes: added symbols (head order), then removed ones (base order),
/// then modified ones (head order).
pub open spec fn diff_spec(
    base: Seq<SymbolV>,
    head: Seq<SymbolV>,
    path: Seq<char>,
    hunks: Seq<(usize, usize)>,
) -> Seq<ChangeV> {
    tag(added_symbols(base, head), ChangeType::Added, path) + tag(
        removed_symbols(base, head),
        ChangeType::Removed,
        path,
    ) + tag(modified_symbols(base, head, hunks), ChangeType::Modified, path)
}

proof fn lemma_keep_push(s: Seq<SymbolV>, p: spec_fn(SymbolV) -> bool, i: int)
    requires
        0 <= i < s.len(),
    ensures
        keep(s.take(i + 1), p) == if p(s[i]) {
            keep(s.take(i), p).push(s[i])
        } else {
            keep(s.take(i), p)
        },
{
    assert(s.take(i + 1).drop_last() =~= s.take(i));
}

proof fn lemma_keep_members(s: Seq<SymbolV>, p: spec_fn(SymbolV) -> bool)
    ensures
        forall|k: int| 0 <= k < keep(s, p).len() ==> p(#[trigger] keep(s, p)[k]),
        forall|k: int| 0 <= k < s.len() && p(s[k]) ==> keep(s, p).contains(#[trigger] s[k]),
        forall|k: int| 0 <= k < keep(s, p).len() ==> s.contains(#[trigger] keep(s, p)[k]),
    decreases s.len(),
{
    if s.len() > 0 {
        let t = s.drop_last();
        lemma_keep_members(t, p);
        assert forall|k: int| 0 <= k < s.len() && p(s[k]) implies keep(s, p).contains(
            #[trigger] s[k],
        ) by {
            if k < t.len() {
                assert(t[k] == s[k]);
                let r = keep(t, p);
                let m = choose|m: int| 0 <= m < r.len() && r[m] == t[k];
                if p(s.last()) {
                    assert(keep(s, p)[m] == s[k]);
                }
            } else {
                assert(keep(s, p).last() == s[k]);
            }
        }
        assert forall|k: int| 0 <= k < keep(s, p).len() implies s.contains(
            #[trigger] keep(s, p)[k],
        ) by {
            let r = keep(t, p);
            if k < r.len() {
                assert(keep(s, p)[k] == r[k]);
                let m = choose|m: int| 0 <= m < t.len() && t[m] == r[k];
                assert(s[m] == t[m]);
            } else {
                assert(s[s.len() - 1] == s.last());
            }
        }
    }
}

fn view_of_symbol(s: &SymbolMatch) -> (r: SymbolChange)
    ensures
        r.name@ == s.name@,
        r.kind@ == s.kind@,
        r.line_start == s.line_start,
        r.change_type == ChangeType::Added,
{
    SymbolChange {
        name: s.name.clone(),
        kind: s.kind.clone(),
        change_type: ChangeType::Added,
        file_path: String::new(),
        line_start: s.line_start,
    }
}

/// Whether `syms` holds a symbol with the name and kind of `x`.
pub fn contains_same(syms: &Vec<SymbolMatch>, x: &SymbolMatch) -> (r: bool)
    ensures
        r == has_same(symbols_view(syms@), x@),
{
    let mut i: usize = 0;
    while i < syms.len()
        invariant
            i <= syms@.len(),
            forall|k: int| 0 <= k < i ==> !same_symbol(symbols_view(syms@)[k], x@),
        decreases syms.len() - i,
    {
        if syms[i].name == x.name && syms[i].kind == x.kind {
            assert(same_symbol(symbols_view(syms@)[i as int], x@));
            return true;
        }
        i = i + 1;
    }
    false
}

/// Whether the lines of `x` meet some hunk.
pub fn is_touched(x: &SymbolMatch, hunks: &Vec<(usize, usize)>) -> (r: bool)
    requires
        !overflow_before_touch(x@, hunks@),
    ensures
        r == touched(x@, hunks@),
{
    let mut i: usize = 0;
    while i < hunks.len()
        invariant
            i <= hunks@.len(),
            !overflow_before_touch(x@, hunks@),
            forall|k: int| 0 <= k < i ==> !hunk_meets(x@, #[trigger] hunks@[k]),
        decreases hunks.len() - i,
    {
        let (hunk_start, hunk_count) = hunks[i];
        assert(hunks@[i as int].0 + hunks@[i as int].1 <= usize::MAX);
        let hunk_end = hunk_start + hunk_count;
        if x.line_start <= hunk_end && hunk_start <= x.line_end {
            assert(hunk_meets(x@, hunks@[i as int]));
            return true;
        }
        i = i + 1;
    }
    false
}

/// Whether some hunk end overflows `usize` before a hunk meets `x`.
pub fn overflows_before_touch(x: &SymbolMatch, hunks: &Vec<(usize, usize)>) -> (b: bool)
    ensures
        b == overflow_before_touch(x@, hunks@),
{
    let mut i: usize = 0;
    while i < hunks.len()
        invariant
            i <= hunks@.len(),
            forall|k: int| 0 <= k < i ==> hunks@[k].0 + hunks@[k].1 <= usize::MAX,
            forall|k: int| 0 <= k < i ==> !hunk_meets(x@, #[trigger] hunks@[k]),
        decreases hunks.len() - i,
    {
        let (hunk_start, hunk_count) = hunks[i];
        if hunk_count > usize::MAX - hunk_start {
            return true;
        }
        let hunk_end = hunk_start + hunk_count;
        if x.line_start <= hunk_end && hunk_start <= x.line_end {
            assert(hunk_meets(x@, hunks@[i as int]));
            proof {
                assert forall|m: int|
                    0 <= m < hunks@.len() && hunks@[m].0 + hunks@[m].1 > usize::MAX implies !(forall|j: int|
                    0 <= j < m ==> !hunk_meets(x@, #[trigger] hunks@[j])) by {
                    if m > i {
                        assert(hunk_meets(x@, hunks@[i as int]));
                    }
                }
            }
            return false;
        }
        i = i + 1;
    }
    false
}

/// Whether every hunk end that [`diff_file_symbols`] computes fits in `usize`.
pub fn hunk_ends_fit_exec(
    base_symbols: &Vec<SymbolMatch>,
    head_symbols: &Vec<SymbolMatch>,
    hunks: &Vec<(usize, usize)>,
) -> (b: bool)
    ensures
        b == hunk_ends_fit(symbols_view(base_symbols@), symbols_view(head_symbols@), hunks@),
{
    let ghost base = symbols_view(base_symbols@);
    let ghost head = symbols_view(head_symbols@);
    let mut i: usize = 0;
    while i < head_symbols.len()
        invariant
            i <= head_symbols@.len(),
            base == symbols_view(base_symbols@),
            head == symbols_view(head_symbols@),
            forall|k: int|
                0 <= k < i && has_same(base, #[trigger] head[k]) ==> !overflow_before_touch(head[k], hunks@),
        decreases head_symbols.len() - i,
    {
        assert(head[i as int] == head_symbols@[i as int]@);
        if contains_same(base_symbols, &head_symbols[i]) && overflows_before_touch(&head_symbols[i], hunks) {
            return false;
        }
        i = i + 1;
    }
    true
}

/// Computes the symbol-level changes of one file between its base symbols and
/// its head symbols. A symbol is added when no base symbol has its name and
/// kind, removed when no head symbol has them, and modified when it is in both
/// and its lines `[line_start, line_end]` meet one of the changed `hunks`
/// `(start_line, line_count)` of the head version.
pub fn diff_file_symbols(
    base_symbols: &Vec<SymbolMatch>,
    head_symbols: &Vec<SymbolMatch>,
    file_path: &str,
    hunks: &Vec<(usize, usize)>,
) -> (changes: Vec<SymbolChange>)
    requires
        hunk_ends_fit(symbols_view(base_symbols@), symbols_view(head_symbols@), hunks@),
    ensures
        changes_view(changes@) == diff_spec(
            symbols_view(base_symbols@),
            symbols_view(head_symbols@),
            file_path@,
            hunks@,
        ),
{
    let ghost base = symbols_view(base_symbols@);
    let ghost head = symbols_view(head_symbols@);
    let ghost path = file_path@;
    let ghost p_added = missing_from(base);
    let ghost p_removed = missing_from(head);
    let ghost p_mod = is_modified(base, head, hunks@);
    let mut changes: Vec<SymbolChange> = Vec::new();

    // Added symbols: in head but not in base, by name and kind.
    let mut i: usize = 0;
    while i < head_symbols.len()
        invariant
            i <= head_symbols@.len(),
            base == symbols_view(base_symbols@),
            head == symbols_view(head_symbols@),
            path == file_path@,
            p_added == missing_from(base),
            changes_view(changes@) == tag(keep(head.take(i as int), p_added), ChangeType::Added, path),
        decreases head_symbols.len() - i,
    {
        proof {
            lemma_keep_push(head, p_added, i as int);
        }
        let ghost old_cv = changes_view(changes@);
        let ghost prev = keep(head.take(i as int), p_added);
        assert(head[i as int] == head_symbols@[i as int]@);
        if !contains_same(base_symbols, &head_symbols[i]) {
            let mut c = view_of_symbol(&head_symbols[i]);
            c.file_path = owned(file_path);
            changes.push(c);
            assert(p_added(head[i as int]));
            assert(keep(head.take(i + 1), p_added) == prev.push(head[i as int]));
            assert(changes_view(changes@) =~= old_cv.push(c@));
        } else {
            assert(!p_added(head[i as int]));
            assert(changes_view(changes@) =~= old_cv);
        }
        i = i + 1;
        assert(changes_view(changes@) =~= tag(keep(head.take(i as int), p_added), ChangeType::Added, path));
    }
    assert(head.take(head_symbols.len() as int) =~= head);
    let ghost n_added = changes@.len();

    // Removed symbols: in base but not in head.
    let mut i: usize = 0;
    while i < base_symbols.len()
        invariant
            i <= base_symbols@.len(),
            base == symbols_view(base_symbols@),
            head == symbols_view(head_symbols@),
            path == file_path@,
            p_removed == missing_from(head),
            changes_view(changes@) == tag(added_symbols(base, head), ChangeType::Added, path) + tag(
                keep(base.take(i as int), p_removed),
                ChangeType::Removed,
                path,
            ),
        decreases base_symbols.len() - i,
    {
        proof {
            lemma_keep_push(base, p_removed, i as int);
        }
        let ghost old_cv = changes_view(changes@);
        let ghost prev = keep(base.take(i as int), p_removed);
        assert(base[i as int] == base_symbols@[i as int]@);
        if !contains_same(head_symbols, &base_symbols[i]) {
            let mut c = view_of_symbol(&base_symbols[i]);
            c.change_type = ChangeType::Removed;
            c.file_path = owned(file_path);
            changes.push(c);
            assert(p_removed(base[i as int]));
            assert(keep(base.take(i + 1), p_removed) == prev.push(base[i as int]));
            assert(changes_view(changes@) =~= old_cv.push(c@));
        } else {
            assert(!p_removed(base[i as int]));
            assert(changes_view(changes@) =~= old_cv);
        }
        i = i + 1;
        assert(changes_view(changes@) =~= tag(added_symbols(base, head), ChangeType::Added, path)
            + tag(keep(base.take(i as int), p_removed), ChangeType::Removed, path));
    }
    assert(base.take(base_symbols.len() as int) =~= base);

    // Modified symbols: in both, touched by a hunk.
    let mut i: usize = 0;
    while i < head_symbols.len()
        invariant
            i <= head_symbols@.len(),
            base == symbols_view(base_symbols@),
            head == symbols_view(head_symbols@),
            path == file_path@,
            hunk_ends_fit(base, head, hunks@),
            p_mod == is_modified(base, head, hunks@),
            changes_view(changes@) == tag(added_symbols(base, head), ChangeType::Added, path) + tag(
                removed_symbols(base, head),
                ChangeType::Removed,
                path,
            ) + tag(keep(head.take(i as int), p_mod), ChangeType::Modified, path),
        decreases head_symbols.len() - i,
    {
        proof {
            lemma_keep_push(head, p_mod, i as int);
        }
        let sym = &head_symbols[i];
        let ghost old_cv = changes_view(changes@);
        let ghost prev = keep(head.take(i as int), p_mod);
        assert(head[i as int] == head_symbols@[i as int]@);
        let mut pushed = false;
        if contains_same(base_symbols, sym) {
            assert(has_same(base, head[i as int]));
            if is_touched(sym, hunks) {
                let mut c = view_of_symbol(sym);
                c.change_type = ChangeType::Modified;
                c.file_path = owned(file_path);
                changes.push(c);
                pushed = true;
                assert(p_mod(head[i as int]));
                assert(keep(head.take(i + 1), p_mod) == prev.push(head[i as int]));
                assert(changes_view(changes@) =~= old_cv.push(c@));
            }
        }
        if !pushed {
            assert(!p_mod(head[i as int]));
            assert(changes_view(changes@) =~= old_cv);
        }
        i = i + 1;
        assert(changes_view(changes@) =~= tag(added_symbols(base, head), ChangeType::Added, path)
            + tag(removed_symbols(base, head), ChangeType::Removed, path)
            + tag(keep(head.take(i as int), p_mod), ChangeType::Modified, path));
    }
    assert(head.take(head_symbols.len() as int) =~= head);
    changes
}

// ---------------------------------------------------------------------------
// Laws
// ---------------------------------------------------------------------------
/// No symbol (name and kind) is reported both added and modified; each change
/// is backed by the version it speaks of (an added symbol is in head and not in
/// base, a removed one in base and not in head, a modified one in both and
/// touched by a hunk); and every head symbol that is in both versions and whose
/// lines meet a hunk is reported modified.
pub proof fn law_diff_classification(
    base: Seq<SymbolV>,
    head: Seq<SymbolV>,
    path: Seq<char>,
    hunks: Seq<(usize, usize)>,
)
    ensures
        forall|i: int, j: int|
            0 <= i < diff_spec(base, head, path, hunks).len() && 0 <= j < diff_spec(
                base,
                head,
                path,
                hunks,
            ).len() && (#[trigger] diff_spec(base, head, path, hunks)[i]).change_type
                == ChangeType::Added && (#[trigger] diff_spec(base, head, path, hunks)[j]).change_type
                == ChangeType::Modified ==> !(diff_spec(base, head, path, hunks)[i].name == diff_spec(
                base,
                head,
                path,
                hunks,
            )[j].name && diff_spec(base, head, path, hunks)[i].kind == diff_spec(
                base,
                head,
                path,
                hunks,
            )[j].kind),
        forall|i: int|
            0 <= i < diff_spec(base, head, path, hunks).len() ==> #[trigger] change_backed(
                base,
                head,
                hunks,
                diff_spec(base, head, path, hunks)[i],
            ),
        forall|k: int|
            0 <= k < head.len() && has_same(base, #[trigger] head[k]) && touched(head[k], hunks)
                ==> diff_spec(base, head, path, hunks).contains(
                ChangeV {
                    name: head[k].name,
                    kind: head[k].kind,
                    change_type: ChangeType::Modified,
                    file_path: path,
                    line_start: head[k].line_start,
                },
            ),
{
    let added = added_symbols(base, head);
    let removed = removed_symbols(base, head);
    let modified = modified_symbols(base, head, hunks);
    let d = diff_spec(base, head, path, hunks);
    lemma_keep_members(head, missing_from(base));
    lemma_keep_members(base, missing_from(head));
    lemma_keep_members(head, is_modified(base, head, hunks));
    let na = added.len() as int;
    let nr = removed.len() as int;
    assert forall|i: int| 0 <= i < d.len() implies #[trigger] change_backed(base, head, hunks, d[i]) by {
        if i < na {
            let x = added[i];
            assert(d[i] == tag(added, ChangeType::Added, path)[i]);
            assert(missing_from(base)(x));
            let m = choose|m: int| 0 <= m < head.len() && head[m] == x;
            assert(same_symbol(head[m], x));
        } else if i < na + nr {
            let x = removed[i - na];
            assert(d[i] == tag(removed, ChangeType::Removed, path)[i - na]);
            assert(missing_from(head)(x));
            let m = choose|m: int| 0 <= m < base.len() && base[m] == x;
            assert(same_symbol(base[m], x));
        } else {
            let x = modified[i - na - nr];
            assert(d[i] == tag(modified, ChangeType::Modified, path)[i - na - nr]);
            assert(is_modified(base, head, hunks)(x));
            let m = choose|m: int| 0 <= m < head.len() && head[m] == x;
            assert(same_symbol(head[m], x));
        }
    }
    assert forall|i: int, j: int|
        0 <= i < d.len() && 0 <= j < d.len() && (#[trigger] d[i]).change_type == ChangeType::Added
            && (#[trigger] d[j]).change_type == ChangeType::Modified implies !(d[i].name == d[j].name
        && d[i].kind == d[j].kind) by {
        if i < na {
            assert(d[i] == tag(added, ChangeType::Added, path)[i]);
        } else if i < na + nr {
            assert(d[i] == tag(removed, ChangeType::Removed, path)[i - na]);
        } else {
            assert(d[i] == tag(modified, ChangeType::Modified, path)[i - na - nr]);
        }
        if j < na {
            assert(d[j] == tag(added, ChangeType::Added, path)[j]);
        } else if j < na + nr {
            assert(d[j] == tag(removed, ChangeType::Removed, path)[j - na]);
        } else {
            assert(d[j] == tag(modified, ChangeType::Modified, path)[j - na - nr]);
        }
        let x = added[i];
        let y = modified[j - na - nr];
        assert(missing_from(base)(x));
        assert(is_modified(base, head, hunks)(y));
        if x.name == y.name && x.kind == y.kind {
            let m = choose|m: int| 0 <= m < base.len() && same_symbol(base[m], y);
            assert(same_symbol(base[m], x));
        }
    }
    assert forall|k: int|
        0 <= k < head.len() && has_same(base, #[trigger] head[k]) && touched(head[k], hunks) implies d.contains(
        ChangeV {
            name: head[k].name,
            kind: head[k].kind,
            change_type: ChangeType::Modified,
            file_path: path,
            line_start: head[k].line_start,
        },
    ) by {
        assert(is_modified(base, head, hunks)(head[k]));
        assert(modified.contains(head[k]));
        let m = choose|m: int| 0 <= m < modified.len() && modified[m] == head[k];
        assert(d[na + nr + m] == tag(modified, ChangeType::Modified, path)[m]);
    }
}

/// What backs a change: an added symbol is in head and not in base, a removed
/// one in base and not in head, a modified one in both and touched by a hunk.
pub open spec fn change_backed(
    base: Seq<SymbolV>,
    head: Seq<SymbolV>,
    hunks: Seq<(usize, usize)>,
    c: ChangeV,
) -> bool {
    let x = SymbolV { name: c.name, kind: c.kind, line_start: c.line_start, line_end: 0 };
    match c.change_type {
        ChangeType::Added => exists|m: int|
            0 <= m < head.len() && same_symbol(#[trigger] head[m], x) && head[m].line_start
                == c.line_start && !has_same(base, head[m]),
        ChangeType::Removed => exists|m: int|
            0 <= m < base.len() && same_symbol(#[trigger] base[m], x) && base[m].line_start
                == c.line_start && !has_same(head, base[m]),
        ChangeType::Modified => exists|m: int|
            0 <= m < head.len() && same_symbol(#[trigger] head[m], x) && head[m].line_start
                == c.line_start && has_same(base, head[m]) && touched(head[m], hunks),
    }
}

/// `idx` places the entries of `a` in `b`, in order: `a` is a subsequence of `b`.
pub open spec fn embeds(a: Seq<ChangeV>, b: Seq<ChangeV>, idx: Seq<int>) -> bool {
    &&& idx.len() == a.len()
    &&& forall|i: int| 0 <= i < idx.len() ==> 0 <= #[trigger] idx[i] < b.len() && b[idx[i]] == a[i]
    &&& forall|i: int, j: int| 0 <= i < j < idx.len() ==> idx[i] < idx[j]
}

proof fn lemma_keep_embeds(s: Seq<SymbolV>, p: spec_fn(SymbolV) -> bool, q: spec_fn(SymbolV) -> bool) -> (idx: Seq<int>)
    requires
        forall|x: SymbolV| #[trigger] p(x) ==> q(x),
    ensures
        idx.len() == keep(s, p).len(),
        forall|i: int|
            0 <= i < idx.len() ==> 0 <= #[trigger] idx[i] < keep(s, q).len() && keep(s, q)[idx[i]]
                == keep(s, p)[i],
        forall|i: int, j: int| 0 <= i < j < idx.len() ==> idx[i] < idx[j],
    decreases s.len(),
{
    if s.len() == 0 {
        Seq::empty()
    } else {
        let t = s.drop_last();
        let sub = lemma_keep_embeds(t, p, q);
        if p(s.last()) {
            let n = keep(t, q).len() as int;
            let idx = sub.push(n);
            assert forall|i: int| 0 <= i < idx.len() implies 0 <= #[trigger] idx[i] < keep(s, q).len()
                && keep(s, q)[idx[i]] == keep(s, p)[i] by {
                if i < sub.len() {
                    assert(idx[i] == sub[i]);
                }
            }
            idx
        } else {
            assert forall|i: int| 0 <= i < sub.len() implies 0 <= #[trigger] sub[i] < keep(s, q).len()
                && keep(s, q)[sub[i]] == keep(s, p)[i] by {
                assert(keep(t, q)[sub[i]] == keep(s, q)[sub[i]]);
            }
            sub
        }
    }
}

proof fn lemma_tag_embeds(a: Seq<SymbolV>, b: Seq<SymbolV>, t: ChangeType, path: Seq<char>, idx: Seq<int>)
    requires
        idx.len() == a.len(),
        forall|i: int| 0 <= i < idx.len() ==> 0 <= #[trigger] idx[i] < b.len() && b[idx[i]] == a[i],
        forall|i: int, j: int| 0 <= i < j < idx.len() ==> idx[i] < idx[j],
    ensures
        embeds(tag(a, t, path), tag(b, t, path), idx),
{
}

/// More changed hunks only ever add `Modified` entries: the added and removed
/// entries do not depend on the hunks, and the diff for `hunks` is a
/// subsequence of the diff for `hunks` followed by `extra`.
pub proof fn law_more_hunks_only_add_modified(
    base: Seq<SymbolV>,
    head: Seq<SymbolV>,
    path: Seq<char>,
    hunks: Seq<(usize, usize)>,
    extra: Seq<(usize, usize)>,
)
    ensures
        ({
            let d1 = diff_spec(base, head, path, hunks);
            let d2 = diff_spec(base, head, path, hunks + extra);
            let n0 = added_symbols(base, head).len() + removed_symbols(base, head).len();
            &&& n0 <= d1.len() && n0 <= d2.len()
            &&& d1.take(n0 as int) == d2.take(n0 as int)
            &&& forall|k: int| n0 <= k < d2.len() ==> (#[trigger] d2[k]).change_type == ChangeType::Modified
            &&& exists|idx: Seq<int>| #[trigger] embeds(d1, d2, idx)
        }),
{
    let hs2 = hunks + extra;
    let p = is_modified(base, head, hunks);
    let q = is_modified(base, head, hs2);
    assert forall|x: SymbolV| #[trigger] p(x) implies q(x) by {
        let i = choose|i: int|
            0 <= i < hunks.len() && x.line_start <= hunks[i].0 + hunks[i].1 && hunks[i].0 <= x.line_end;
        assert(hs2[i] == hunks[i]);
    }
    let sub = lemma_keep_embeds(head, p, q);
    let m1 = tag(modified_symbols(base, head, hunks), ChangeType::Modified, path);
    let m2 = tag(modified_symbols(base, head, hs2), ChangeType::Modified, path);
    lemma_tag_embeds(modified_symbols(base, head, hunks), modified_symbols(base, head, hs2), ChangeType::Modified, path, sub);
    let pre = tag(added_symbols(base, head), ChangeType::Added, path) + tag(
        removed_symbols(base, head),
        ChangeType::Removed,
        path,
    );
    let n0 = pre.len() as int;
    let d1 = diff_spec(base, head, path, hunks);
    let d2 = diff_spec(base, head, path, hs2);
    assert(d1 == pre + m1);
    assert(d2 == pre + m2);
    assert(d1.take(n0) =~= pre);
    assert(d2.take(n0) =~= pre);
    let idx = Seq::new(n0 as nat, |i: int| i) + sub.map_values(|v: int| v + n0);
    assert(embeds(d1, d2, idx)) by {
        assert forall|i: int| 0 <= i < idx.len() implies 0 <= #[trigger] idx[i] < d2.len() && d2[idx[i]]
            == d1[i] by {
            if i >= n0 {
                assert(idx[i] == sub[i - n0] + n0);
            }
        }
        assert forall|i: int, j: int| 0 <= i < j < idx.len() implies idx[i] < idx[j] by {
            if i >= n0 {
                assert(idx[i] == sub[i - n0] + n0);
            }
            if j >= n0 {
                assert(idx[j] == sub[j - n0] + n0);
            }
        }
    }
}

proof fn lemma_keep_none(s: Seq<SymbolV>, p: spec_fn(SymbolV) -> bool)
    requires
        forall|k: int| 0 <= k < s.len() ==> !p(#[trigger] s[k]),
    ensures
        keep(s, p) == Seq::<SymbolV>::empty(),
    decreases s.len(),
{
    if s.len() > 0 {
        assert(!p(s[s.len() - 1]));
        assert forall|k: int| 0 <= k < s.drop_last().len() implies !p(#[trigger] s.drop_last()[k]) by {
            assert(s.drop_last()[k] == s[k]);
        }
        lemma_keep_none(s.drop_last(), p);
    }
}

proof fn lemma_keep_all(s: Seq<SymbolV>, p: spec_fn(SymbolV) -> bool)
    requires
        forall|k: int| 0 <= k < s.len() ==> p(#[trigger] s[k]),
    ensures
        keep(s, p) == s,
    decreases s.len(),
{
    if s.len() > 0 {
        assert(p(s[s.len() - 1]));
        assert forall|k: int| 0 <= k < s.drop_last().len() implies p(#[trigger] s.drop_last()[k]) by {
            assert(s.drop_last()[k] == s[k]);
        }
        lemma_keep_all(s.drop_last(), p);
        assert(s.drop_last().push(s.last()) =~= s);
    }
}

/// Without hunks nothing is modified, and exchanging the two versions exchanges
/// the added and the removed symbols.
pub proof fn law_exchanging_versions(base: Seq<SymbolV>, head: Seq<SymbolV>, path: Seq<char>)
    ensures
        diff_spec(base, head, path, Seq::empty()) == tag(added_symbols(base, head), ChangeType::Added, path)
            + tag(removed_symbols(base, head), ChangeType::Removed, path),
        diff_spec(head, base, path, Seq::empty()) == tag(removed_symbols(base, head), ChangeType::Added, path)
            + tag(added_symbols(base, head), ChangeType::Removed, path),
{
    let none: Seq<(usize, usize)> = Seq::empty();
    lemma_keep_none(head, is_modified(base, head, none));
    lemma_keep_none(base, is_modified(head, base, none));
    assert(tag(Seq::<SymbolV>::empty(), ChangeType::Modified, path) =~= Seq::<ChangeV>::empty());
    assert(diff_spec(base, head, path, none) =~= tag(added_symbols(base, head), ChangeType::Added, path)
        + tag(removed_symbols(base, head), ChangeType::Removed, path));
    assert(diff_spec(head, base, path, none) =~= tag(removed_symbols(base, head), ChangeType::Added, path)
        + tag(added_symbols(base, head), ChangeType::Removed, path));
}

/// With no base version every head symbol is reported added, in order, and any
/// hunks are accepted.
pub proof fn law_no_base_all_added(head: Seq<SymbolV>, path: Seq<char>, hunks: Seq<(usize, usize)>)
    ensures
        hunk_ends_fit(Seq::empty(), head, hunks),
        diff_spec(Seq::empty(), head, path, hunks) == tag(head, ChangeType::Added, path),
{
    let base: Seq<SymbolV> = Seq::empty();
    lemma_keep_all(head, missing_from(base));
    lemma_keep_none(head, is_modified(base, head, hunks));
    lemma_keep_none(base, missing_from(head));
    assert(tag(Seq::<SymbolV>::empty(), ChangeType::Removed, path) =~= Seq::<ChangeV>::empty());
    assert(tag(Seq::<SymbolV>::empty(), ChangeType::Modified, path) =~= Seq::<ChangeV>::empty());
    assert(diff_spec(base, head, path, hunks) =~= tag(head, ChangeType::Added, path));
}

} // verus!
