//! Unix path arithmetic on character sequences: the component split,
//! `file_name`, `parent`, `extension`, `join`, and component-wise
//! `starts_with`, each matching what `std::path::Path` does for paths
//! separated by `/`.

use vstd::prelude::*;
use crate::text::{split_on, split_chars, views, chars_equal, slice_chars, extend_chars};

verus! {

/// The path is absolute.
pub open spec fn is_absolute(p: Seq<char>) -> bool {
    p.len() > 0 && p[0] == '/'
}

/// Length of the root prefix: one for an absolute path, else zero.
pub open spec fn root_length(p: Seq<char>) -> int {
    if is_absolute(p) {
        1
    } else {
        0
    }
}

/// The path with trailing separators and trailing `.` components cut
/// off, keeping the root and a leading `.` component.
pub open spec fn trim_trailing(p: Seq<char>) -> Seq<char>
    decreases p.len(),
{
    if p.len() <= root_length(p) {
        p
    } else if p.last() == '/' {
        trim_trailing(p.drop_last())
    } else if p.len() >= 2 && p[p.len() - 2] == '/' && p.last() == '.' {
        trim_trailing(p.drop_last())
    } else {
        p
    }
}

/// Index of the last `/` in `p`, or `-1` when there is none.
pub open spec fn last_separator(p: Seq<char>) -> int
    decreases p.len(),
{
    if p.len() == 0 {
        -1
    } else if p.last() == '/' {
        p.len() - 1
    } else {
        last_separator(p.drop_last())
    }
}

/// The final component of a trimmed path, as text.
pub open spec fn final_segment(p: Seq<char>) -> Seq<char> {
    let trimmed = trim_trailing(p);
    trimmed.subrange(last_separator(trimmed) + 1, trimmed.len() as int)
}

/// What `Path::file_name` returns.
pub open spec fn file_name(p: Seq<char>) -> Option<Seq<char>> {
    let trimmed = trim_trailing(p);
    let segment = final_segment(p);
    if trimmed.len() <= root_length(p) {
        None
    } else if segment == seq!['.'] || segment == seq!['.', '.'] {
        None
    } else {
        Some(segment)
    }
}

/// What `Path::parent` returns.
pub open spec fn parent(p: Seq<char>) -> Option<Seq<char>> {
    let trimmed = trim_trailing(p);
    if trimmed.len() <= root_length(p) {
        None
    } else {
        Some(trim_trailing(trimmed.subrange(0, last_separator(trimmed) + 1)))
    }
}

/// Index of the last `.` in `name`, or `-1`.
pub open spec fn last_dot(name: Seq<char>) -> int
    decreases name.len(),
{
    if name.len() == 0 {
        -1
    } else if name.last() == '.' {
        name.len() - 1
    } else {
        last_dot(name.drop_last())
    }
}

/// What `Path::extension` returns for a file name.
pub open spec fn name_extension(name: Seq<char>) -> Option<Seq<char>> {
    let dot = last_dot(name);
    if dot <= 0 {
        None
    } else {
        Some(name.skip(dot + 1))
    }
}

/// What `Path::extension` returns.
pub open spec fn extension(p: Seq<char>) -> Option<Seq<char>> {
    match file_name(p) {
        Some(name) => name_extension(name),
        None => None,
    }
}

/// What `Path::join` returns for a relative or absolute addition.
pub open spec fn join_path(base: Seq<char>, addition: Seq<char>) -> Seq<char> {
    if is_absolute(addition) {
        addition
    } else if base.len() > 0 && base.last() != '/' {
        base + seq!['/'] + addition
    } else {
        base + addition
    }
}

/// Normal components among the split pieces: empty pieces and `.` drop out.
pub open spec fn normal_components(pieces: Seq<Seq<char>>) -> Seq<Seq<char>>
    decreases pieces.len(),
{
    if pieces.len() == 0 {
        seq![]
    } else if pieces[0].len() == 0 || pieces[0] == seq!['.'] {
        normal_components(pieces.drop_first())
    } else {
        seq![pieces[0]] + normal_components(pieces.drop_first())
    }
}

/// What `Path::components` yields, the root written `/` and a leading
/// current-directory component written `.`.
pub open spec fn components(p: Seq<char>) -> Seq<Seq<char>> {
    let pieces = split_on(p, '/');
    if is_absolute(p) {
        seq![seq!['/']] + normal_components(pieces)
    } else if pieces.len() > 0 && pieces[0] == seq!['.'] {
        seq![seq!['.']] + normal_components(pieces.drop_first())
    } else {
        normal_components(pieces)
    }
}

/// What `Path::starts_with` decides: the components of `base` begin the
/// components of `p`.
pub open spec fn path_starts_with(p: Seq<char>, base: Seq<char>) -> bool {
    let whole = components(p);
    let front = components(base);
    front.len() <= whole.len() && whole.subrange(0, front.len() as int) == front
}

proof fn lemma_last_separator_bounds(p: Seq<char>)
    ensures
        -1 <= last_separator(p) < p.len(),
        last_separator(p) >= 0 ==> p[last_separator(p)] == '/',
        forall|k: int| last_separator(p) < k < p.len() ==> p[k] != '/',
    decreases p.len(),
{
    if p.len() > 0 && p.last() != '/' {
        lemma_last_separator_bounds(p.drop_last());
        assert forall|k: int| last_separator(p) < k < p.len() implies p[k] != '/' by {
            if k < p.len() - 1 {
                assert(p.drop_last()[k] == p[k]);
            }
        }
    }
}

proof fn lemma_last_dot_bounds(p: Seq<char>)
    ensures
        -1 <= last_dot(p) < p.len(),
        forall|k: int| last_dot(p) < k < p.len() ==> p[k] != '.',
    decreases p.len(),
{
    if p.len() > 0 && p.last() != '.' {
        lemma_last_dot_bounds(p.drop_last());
        assert forall|k: int| last_dot(p) < k < p.len() implies p[k] != '.' by {
            if k < p.len() - 1 {
                assert(p.drop_last()[k] == p[k]);
            }
        }
    }
}

proof fn lemma_trim_trailing_prefix(p: Seq<char>)
    ensures
        trim_trailing(p).len() <= p.len(),
        trim_trailing(p) == p.subrange(0, trim_trailing(p).len() as int),
        root_length(trim_trailing(p)) == root_length(p),
    decreases p.len(),
{
    if p.len() <= root_length(p) {
        assert(p.subrange(0, p.len() as int) =~= p);
    } else if p.last() == '/' || (p.len() >= 2 && p[p.len() - 2] == '/' && p.last() == '.') {
        let shorter = p.drop_last();
        if is_absolute(p) {
            assert(shorter[0] == p[0]);
        }
        lemma_trim_trailing_prefix(shorter);
        assert(trim_trailing(p) == trim_trailing(shorter));
        assert(shorter.subrange(0, trim_trailing(shorter).len() as int) =~= p.subrange(
            0,
            trim_trailing(shorter).len() as int,
        ));
    } else {
        assert(p.subrange(0, p.len() as int) =~= p);
    }
}

/// An extension is shorter than its path by at least the dot and one
/// character of the name before it.
pub proof fn lemma_extension_length(p: Seq<char>)
    ensures
        extension(p) matches Some(e) ==> e.len() + 2 <= p.len(),
{
    let trimmed = trim_trailing(p);
    lemma_trim_trailing_prefix(p);
    lemma_last_separator_bounds(trimmed);
    if let Some(name) = file_name(p) {
        lemma_last_dot_bounds(name);
    }
}

/// Cuts trailing separators and trailing `.` components.
pub fn trim_trailing_chars(p: &[char]) -> (trimmed: Vec<char>)
    ensures
        trimmed@ == trim_trailing(p@),
{
    let root: usize = if p.len() > 0 && p[0] == '/' {
        1
    } else {
        0
    };
    let mut end: usize = p.len();
    assert(p@.subrange(0, end as int) =~= p@);
    while end > root && (p[end - 1] == '/' || (end >= 2 && p[end - 2] == '/' && p[end - 1]
        == '.'))
        invariant
            root as int == root_length(p@),
            root <= end <= p@.len(),
            trim_trailing(p@) == trim_trailing(p@.subrange(0, end as int)),
        decreases end,
    {
        let ghost current = p@.subrange(0, end as int);
        assert(current.drop_last() =~= p@.subrange(0, end - 1));
        if root == 1 {
            assert(current[0] == p@[0]);
        }
        assert(root_length(current) == root as int);
        end = end - 1;
    }
    let ghost current = p@.subrange(0, end as int);
    proof {
        if end > 0 && root == 1 {
            assert(current[0] == p@[0]);
        }
        if end == 0 {
            assert(root_length(current) == 0);
        }
        assert(root_length(current) == root as int || end == 0);
    }
    slice_chars(p, 0, end)
}

/// Index one past the last `/`, or zero.
fn segment_start(p: &[char]) -> (start: usize)
    ensures
        start as int == last_separator(p@) + 1,
{
    let mut index: usize = p.len();
    assert(p@.subrange(0, index as int) =~= p@);
    while index > 0 && p[index - 1] != '/'
        invariant
            index <= p@.len(),
            last_separator(p@) == last_separator(p@.subrange(0, index as int)),
        decreases index,
    {
        assert(p@.subrange(0, index as int).drop_last() =~= p@.subrange(0, index - 1));
        index = index - 1;
    }
    proof {
        if index > 0 {
            assert(p@.subrange(0, index as int).last() == '/');
        }
    }
    index
}

/// What `Path::file_name` returns.
pub fn file_name_of(p: &[char]) -> (name: Option<Vec<char>>)
    ensures
        name is Some <==> file_name(p@) is Some,
        name matches Some(found) ==> file_name(p@) == Some(found@),
{
    let trimmed = trim_trailing_chars(p);
    proof {
        lemma_trim_trailing_prefix(p@);
        lemma_last_separator_bounds(trimmed@);
        if trimmed@.len() > 0 {
            assert(trimmed@[0] == p@[0]);
        }
    }
    let root: usize = if p.len() > 0 && p[0] == '/' {
        1
    } else {
        0
    };
    if trimmed.len() <= root {
        return None;
    }
    let start = segment_start(trimmed.as_slice());
    let segment = slice_chars(trimmed.as_slice(), start, trimmed.len());
    let dot = ['.'];
    let dot_dot = ['.', '.'];
    if chars_equal(segment.as_slice(), &dot) || chars_equal(segment.as_slice(), &dot_dot) {
        assert(dot@ =~= seq!['.']);
        assert(dot_dot@ =~= seq!['.', '.']);
        return None;
    }
    assert(dot@ =~= seq!['.']);
    assert(dot_dot@ =~= seq!['.', '.']);
    Some(segment)
}

/// What `Path::parent` returns.
pub fn parent_of(p: &[char]) -> (result: Option<Vec<char>>)
    ensures
        result is Some <==> parent(p@) is Some,
        result matches Some(found) ==> parent(p@) == Some(found@),
{
    let trimmed = trim_trailing_chars(p);
    proof {
        lemma_trim_trailing_prefix(p@);
        lemma_last_separator_bounds(trimmed@);
        if trimmed@.len() > 0 {
            assert(trimmed@[0] == p@[0]);
        }
    }
    let root: usize = if p.len() > 0 && p[0] == '/' {
        1
    } else {
        0
    };
    if trimmed.len() <= root {
        return None;
    }
    let start = segment_start(trimmed.as_slice());
    let remaining = slice_chars(trimmed.as_slice(), 0, start);
    Some(trim_trailing_chars(remaining.as_slice()))
}

/// What `Path::extension` returns for a file name.
pub fn name_extension_of(name: &[char]) -> (result: Option<Vec<char>>)
    ensures
        result is Some <==> name_extension(name@) is Some,
        result matches Some(found) ==> name_extension(name@) == Some(found@),
{
    let mut index: usize = name.len();
    assert(name@.subrange(0, index as int) =~= name@);
    while index > 0 && name[index - 1] != '.'
        invariant
            index <= name@.len(),
            last_dot(name@) == last_dot(name@.subrange(0, index as int)),
        decreases index,
    {
        assert(name@.subrange(0, index as int).drop_last() =~= name@.subrange(0, index - 1));
        index = index - 1;
    }
    proof {
        if index > 0 {
            assert(name@.subrange(0, index as int).last() == '.');
        }
    }
    if index <= 1 {
        return None;
    }
    let extension_chars = slice_chars(name, index, name.len());
    assert(extension_chars@ =~= name@.skip(index as int));
    Some(extension_chars)
}

/// What `Path::extension` returns.
pub fn extension_of(p: &[char]) -> (result: Option<Vec<char>>)
    ensures
        result is Some <==> extension(p@) is Some,
        result matches Some(found) ==> extension(p@) == Some(found@),
{
    match file_name_of(p) {
        Some(name) => name_extension_of(name.as_slice()),
        None => None,
    }
}

/// What `Path::join` returns.
pub fn join_paths(base: &[char], addition: &[char]) -> (joined: Vec<char>)
    ensures
        joined@ == join_path(base@, addition@),
{
    let mut joined: Vec<char> = Vec::new();
    if addition.len() > 0 && addition[0] == '/' {
        extend_chars(&mut joined, addition);
        assert(joined@ =~= addition@);
        return joined;
    }
    extend_chars(&mut joined, base);
    if base.len() > 0 && base[base.len() - 1] != '/' {
        joined.push('/');
    }
    extend_chars(&mut joined, addition);
    proof {
        if base@.len() > 0 && base@.last() != '/' {
            assert(joined@ =~= base@ + seq!['/'] + addition@);
        } else {
            assert(joined@ =~= base@ + addition@);
        }
    }
    joined
}

/// Keeps the normal components of split pieces.
fn normal_components_of(pieces: &Vec<Vec<char>>, from: usize) -> (kept: Vec<Vec<char>>)
    requires
        from <= pieces@.len(),
    ensures
        views(kept@) == normal_components(views(pieces@).skip(from as int)),
{
    let mut kept: Vec<Vec<char>> = Vec::new();
    let mut index: usize = from;
    let dot = ['.'];
    assert(dot@ =~= seq!['.']);
    while index < pieces.len()
        invariant
            from <= index <= pieces@.len(),
            dot@ == seq!['.'],
            views(kept@) + normal_components(views(pieces@).skip(index as int))
                == normal_components(views(pieces@).skip(from as int)),
        decreases pieces@.len() - index,
    {
        let ghost rest = views(pieces@).skip(index as int);
        assert(rest.drop_first() =~= views(pieces@).skip(index + 1));
        assert(rest[0] == pieces@[index as int]@);
        if pieces[index].len() > 0 && !chars_equal(pieces[index].as_slice(), &dot) {
            let ghost before = kept@;
            let piece = slice_chars(pieces[index].as_slice(), 0, pieces[index].len());
            assert(piece@ =~= pieces@[index as int]@);
            kept.push(piece);
            assert(views(kept@) =~= views(before) + seq![piece@]);
            assert(views(kept@) + normal_components(views(pieces@).skip(index + 1)) =~= views(
                before,
            ) + normal_components(rest));
        }
        index = index + 1;
    }
    assert(normal_components(views(pieces@).skip(index as int)) =~= Seq::<Seq<char>>::empty());
    assert(views(kept@) + Seq::<Seq<char>>::empty() =~= views(kept@));
    kept
}

/// What `Path::components` yields.
pub fn components_of(p: &[char]) -> (result: Vec<Vec<char>>)
    ensures
        views(result@) == components(p@),
{
    let pieces = split_chars(p, '/');
    let dot = ['.'];
    assert(dot@ =~= seq!['.']);
    assert(views(pieces@).skip(0) =~= views(pieces@));
    if p.len() > 0 && p[0] == '/' {
        let mut marker: Vec<char> = Vec::new();
        marker.push('/');
        assert(marker@ =~= seq!['/']);
        let mut result: Vec<Vec<char>> = Vec::new();
        result.push(marker);
        assert(views(result@)[0] == result@[0]@);
        let normals = normal_components_of(&pieces, 0);
        let ghost first = views(result@);
        assert(first =~= seq![seq!['/']]);
        let mut index: usize = 0;
        while index < normals.len()
            invariant
                index <= normals@.len(),
                views(result@) == first + views(normals@).take(index as int),
            decreases normals@.len() - index,
        {
            let copy = slice_chars(normals[index].as_slice(), 0, normals[index].len());
            assert(copy@ =~= normals@[index as int]@);
            let ghost before = result@;
            result.push(copy);
            assert(views(result@) =~= views(before).push(copy@));
            assert(views(normals@).take(index + 1) =~= views(normals@).take(index as int).push(copy@));
            assert(views(result@) =~= first + views(normals@).take(index + 1));
            index = index + 1;
        }
        assert(views(normals@).take(index as int) =~= views(normals@));
        return result;
    }
    if pieces.len() > 0 && chars_equal(pieces[0].as_slice(), &dot) {
        assert(views(pieces@)[0] == pieces@[0]@);
        assert(views(pieces@).drop_first() =~= views(pieces@).skip(1));
        let mut marker: Vec<char> = Vec::new();
        marker.push('.');
        assert(marker@ =~= seq!['.']);
        let mut result: Vec<Vec<char>> = Vec::new();
        result.push(marker);
        assert(views(result@)[0] == result@[0]@);
        let normals = normal_components_of(&pieces, 1);
        let ghost first = views(result@);
        assert(first =~= seq![seq!['.']]);
        let mut index: usize = 0;
        while index < normals.len()
            invariant
                index <= normals@.len(),
                views(result@) == first + views(normals@).take(index as int),
            decreases normals@.len() - index,
        {
            let copy = slice_chars(normals[index].as_slice(), 0, normals[index].len());
            assert(copy@ =~= normals@[index as int]@);
            let ghost before = result@;
            result.push(copy);
            assert(views(result@) =~= views(before).push(copy@));
            assert(views(normals@).take(index + 1) =~= views(normals@).take(index as int).push(copy@));
            assert(views(result@) =~= first + views(normals@).take(index + 1));
            index = index + 1;
        }
        assert(views(normals@).take(index as int) =~= views(normals@));
        return result;
    }
    proof {
        if pieces@.len() > 0 {
            assert(views(pieces@)[0] == pieces@[0]@);
        }
    }
    normal_components_of(&pieces, 0)
}

/// What `Path::starts_with` decides.
pub fn starts_with_path(p: &[char], base: &[char]) -> (answer: bool)
    ensures
        answer == path_starts_with(p@, base@),
{
    let whole = components_of(p);
    let front = components_of(base);
    if front.len() > whole.len() {
        return false;
    }
    let mut index: usize = 0;
    while index < front.len()
        invariant
            front@.len() <= whole@.len(),
            views(whole@) == components(p@),
            views(front@) == components(base@),
            index <= front@.len(),
            forall|k: int| 0 <= k < index ==> views(whole@)[k] == views(front@)[k],
        decreases front@.len() - index,
    {
        assert(views(whole@)[index as int] == whole@[index as int]@);
        assert(views(front@)[index as int] == front@[index as int]@);
        if !chars_equal(whole[index].as_slice(), front[index].as_slice()) {
            assert(views(whole@).subrange(0, front@.len() as int)[index as int] != views(
                front@,
            )[index as int]);
            assert(views(whole@).subrange(0, front@.len() as int) != views(front@));
            assert(components(p@) == views(whole@));
            assert(components(base@) == views(front@));
            return false;
        }
        index = index + 1;
    }
    assert(views(whole@).subrange(0, front@.len() as int) =~= views(front@));
    true
}

/// Path equality as `Path` defines it: the same components.
pub open spec fn same_path(a: Seq<char>, b: Seq<char>) -> bool {
    components(a) == components(b)
}

/// Whether two paths have the same components.
pub fn paths_equal(a: &[char], b: &[char]) -> (same: bool)
    ensures
        same == same_path(a@, b@),
{
    let first = components_of(a);
    let second = components_of(b);
    if first.len() != second.len() {
        return false;
    }
    let mut index: usize = 0;
    while index < first.len()
        invariant
            views(first@) == components(a@),
            views(second@) == components(b@),
            first@.len() == second@.len(),
            index <= first@.len(),
            forall|k: int| 0 <= k < index ==> first@[k]@ == second@[k]@,
        decreases first@.len() - index,
    {
        if !chars_equal(first[index].as_slice(), second[index].as_slice()) {
            assert(views(first@)[index as int] != views(second@)[index as int]);
            assert(views(first@) != views(second@));
            return false;
        }
        index = index + 1;
    }
    assert(views(first@) =~= views(second@));
    true
}

} // verus!
