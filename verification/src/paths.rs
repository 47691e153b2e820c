//! Paths as text.

use crate::collections::{lemma_pushed_text, text_views};
use crate::text::{from_chars, same_text, to_chars};
use vstd::prelude::*;
use vstd::string::*;

verus! {

/// How paths are written on a platform.
#[derive(Debug, Clone, Copy, PartialEq, Eq, Structural)]
pub enum PathStyle {
    /// Parts are separated by slashes.
    Posix,
    /// Parts are separated by slashes or backslashes.
    Windows,
}

impl PathStyle {
    pub open spec fn separates(self, c: char) -> bool {
        c == '/' || (self == PathStyle::Windows && c == '\\')
    }

    /// The separator that is written between parts.
    pub open spec fn main_separator(self) -> char {
        match self {
            PathStyle::Posix => '/',
            PathStyle::Windows => '\\',
        }
    }

    /// Whether the character separates the parts of a path.
    pub fn is_separator(self, c: char) -> (r: bool)
        ensures
            r == self.separates(c),
    {
        c == '/' || (self == PathStyle::Windows && c == '\\')
    }
}

/// `std::path::is_separator`, asked of the backslash: whether this platform separates the
/// parts of a path by it. Nothing is claimed of the answer, which depends on the platform.
#[verifier::external_body]
fn backslash_separates() -> (r: bool) {
    std::path::is_separator('\\')
}

/// How paths are written here.
pub(crate) fn host_path_style() -> PathStyle {
    if backslash_separates() {
        PathStyle::Windows
    } else {
        PathStyle::Posix
    }
}

/// The path without trailing separators and without trailing parts that stand for the same
/// directory.
pub open spec fn trimmed_path(style: PathStyle, path: Seq<char>) -> Seq<char>
    decreases path.len(),
{
    if path.len() > 0 && style.separates(path.last()) {
        trimmed_path(style, path.drop_last())
    } else if path.len() >= 2 && path.last() == '.' && style.separates(path[path.len() - 2]) {
        trimmed_path(style, path.drop_last())
    } else {
        path
    }
}

/// Where the last part of a path begins.
pub open spec fn last_part_start(style: PathStyle, path: Seq<char>) -> int
    decreases path.len(),
{
    if path.len() == 0 {
        0
    } else if style.separates(path.last()) {
        path.len() as int
    } else {
        last_part_start(style, path.drop_last())
    }
}

/// The last part of a path, unless that is no name.
pub open spec fn file_name_of(style: PathStyle, path: Seq<char>) -> Option<Seq<char>> {
    let short = trimmed_path(style, path);
    let last = short.skip(last_part_start(style, short));
    if last.len() == 0 || last == "."@ || last == ".."@ {
        None
    } else {
        Some(last)
    }
}

/// Where the extension of a name begins, after its last dot; none where the name has no dot
/// or only a leading one.
pub open spec fn extension_start(name: Seq<char>) -> Option<int>
    decreases name.len(),
{
    if name.len() <= 1 {
        None
    } else if name.last() == '.' {
        Some(name.len() as int)
    } else {
        extension_start(name.drop_last())
    }
}

/// The extension of the last part of a path, empty where it has none.
pub open spec fn extension_of(style: PathStyle, path: Seq<char>) -> Seq<char> {
    match file_name_of(style, path) {
        Some(name) => match extension_start(name) {
            Some(at) => name.skip(at),
            None => Seq::empty(),
        },
        None => Seq::empty(),
    }
}

/// The path with the extension of its last part replaced; unchanged where it has no name.
pub open spec fn with_extension_of(style: PathStyle, path: Seq<char>, extension: Seq<char>) -> Seq<
    char,
> {
    match file_name_of(style, path) {
        Some(name) => {
            let short = trimmed_path(style, path);
            let stem = match extension_start(name) {
                Some(at) => short.take(short.len() - name.len() + at - 1),
                None => short,
            };
            if extension.len() == 0 {
                stem
            } else {
                stem.push('.') + extension
            }
        },
        None => path,
    }
}

/// The directory that the last part of a path stands in.
pub open spec fn directory_of(style: PathStyle, path: Seq<char>) -> Seq<char> {
    let short = trimmed_path(style, path);
    let head = short.take(last_part_start(style, short));
    let directory = trimmed_path(style, head);
    if directory.len() == 0 && head.len() > 0 {
        head.take(1)
    } else {
        directory
    }
}

/// The path with `name`, which is relative, behind it.
pub open spec fn joined(style: PathStyle, path: Seq<char>, name: Seq<char>) -> Seq<char> {
    if path.len() > 0 && !style.separates(path.last()) {
        path.push(style.main_separator()) + name
    } else {
        path + name
    }
}

/// The path with its last part replaced by `name`.
pub open spec fn with_file_name_of(style: PathStyle, path: Seq<char>, name: Seq<char>) -> Seq<char> {
    match file_name_of(style, path) {
        Some(_) => joined(style, directory_of(style, path), name),
        None => joined(style, path, name),
    }
}

proof fn lemma_trimmed_is_prefix(style: PathStyle, path: Seq<char>)
    ensures
        trimmed_path(style, path).len() <= path.len(),
        trimmed_path(style, path) == path.take(trimmed_path(style, path).len() as int),
    decreases path.len(),
{
    if path.len() > 0 && style.separates(path.last()) || path.len() >= 2 && path.last() == '.'
        && style.separates(path[path.len() - 2]) {
        lemma_trimmed_is_prefix(style, path.drop_last());
        assert(path.drop_last().take(trimmed_path(style, path).len() as int) =~= path.take(
            trimmed_path(style, path).len() as int,
        ));
    } else {
        assert(path.take(path.len() as int) =~= path);
    }
}

proof fn lemma_start_before_suffix(style: PathStyle, path: Seq<char>, suffix: Seq<char>)
    requires
        forall|i: int| 0 <= i < suffix.len() ==> !style.separates(#[trigger] suffix[i]),
    ensures
        last_part_start(style, path + suffix) == last_part_start(style, path),
        0 <= last_part_start(style, path) <= path.len(),
    decreases path.len() + suffix.len(),
{
    if suffix.len() > 0 {
        assert((path + suffix).last() == suffix[suffix.len() - 1]);
        assert((path + suffix).drop_last() =~= path + suffix.drop_last());
        assert forall|i: int| 0 <= i < suffix.drop_last().len() implies !style.separates(
            #[trigger] suffix.drop_last()[i],
        ) by {
            assert(!style.separates(suffix[i]));
        }
        lemma_start_before_suffix(style, path, suffix.drop_last());
    } else {
        assert(path + suffix =~= path);
        if path.len() > 0 && !style.separates(path.last()) {
            lemma_start_before_suffix(style, path.drop_last(), suffix);
        }
    }
}

proof fn lemma_extension_follows_dot(name: Seq<char>)
    ensures
        extension_start(name) matches Some(at) ==> 1 < at <= name.len() && name[at - 1] == '.',
    decreases name.len(),
{
    if name.len() > 1 && name.last() != '.' {
        lemma_extension_follows_dot(name.drop_last());
    }
}

/// The path with more behind the extension of its last part, or with a first extension, names
/// another file in the same directory.
pub proof fn longer_extensions_stay_in_the_directory(
    style: PathStyle,
    path: Seq<char>,
    suffix: Seq<char>,
)
    requires
        file_name_of(style, path) is Some,
        suffix.len() > 0,
        suffix.last() != '.',
        forall|i: int| 0 <= i < suffix.len() ==> !style.separates(#[trigger] suffix[i]),
    ensures
        ({
            let name = file_name_of(style, path)->0;
            let longer = with_extension_of(style, path, extension_of(style, path) + suffix);
            let dot = if extension_start(name) is Some { Seq::<char>::empty() } else { seq!['.'] };
            &&& file_name_of(style, longer) == Some(name + dot + suffix)
            &&& directory_of(style, longer) == directory_of(style, path)
        }),
{
    let short = trimmed_path(style, path);
    let start = last_part_start(style, short);
    let name = short.skip(start);
    let extension = extension_of(style, path);
    let longer = with_extension_of(style, path, extension + suffix);
    let dot = if extension_start(name) is Some { Seq::<char>::empty() } else { seq!['.'] };
    let end = dot + suffix;
    lemma_extension_follows_dot(name);
    assert forall|i: int| 0 <= i < end.len() implies !style.separates(#[trigger] end[i]) by {
        if i >= dot.len() {
            assert(!style.separates(suffix[i - dot.len()]));
        }
    }
    lemma_start_before_suffix(style, short, end);
    assert(longer =~= short + end);
    assert(longer.last() == suffix.last());
    assert(!style.separates(suffix[suffix.len() - 1]));
    assert(trimmed_path(style, longer) == longer);
    assert(longer.skip(start) =~= name + dot + suffix);
    assert(longer.take(start) =~= short.take(start));
    reveal_strlit(".");
    reveal_strlit("..");
    assert((name + dot + suffix).last() != '.');
    assert("."@.last() == '.' && ".."@.last() == '.');
}

fn trimmed_len(style: PathStyle, chars: &Vec<char>, len: usize) -> (r: usize)
    requires
        len <= chars@.len(),
    ensures
        r <= len,
        chars@.take(r as int) == trimmed_path(style, chars@.take(len as int)),
{
    let mut end: usize = len;
    while end > 0
        invariant_except_break
            true,
        invariant
            end <= len <= chars@.len(),
            trimmed_path(style, chars@.take(end as int)) == trimmed_path(
                style,
                chars@.take(len as int),
            ),
        ensures
            end <= len,
            chars@.take(end as int) == trimmed_path(style, chars@.take(len as int)),
        decreases end,
    {
        let ghost cut = chars@.take(end as int);
        assert(cut.last() == chars@[end - 1]);
        assert(cut.drop_last() =~= chars@.take(end - 1));
        if style.is_separator(chars[end - 1]) || (end >= 2 && chars[end - 1] == '.'
            && style.is_separator(chars[end - 2])) {
            end -= 1;
        } else {
            break ;
        }
    }
    end
}

fn last_start(style: PathStyle, chars: &Vec<char>, len: usize) -> (r: usize)
    requires
        len <= chars@.len(),
    ensures
        r <= len,
        r == last_part_start(style, chars@.take(len as int)),
{
    let mut at: usize = len;
    while at > 0 && !style.is_separator(chars[at - 1])
        invariant
            at <= len <= chars@.len(),
            last_part_start(style, chars@.take(at as int)) == last_part_start(
                style,
                chars@.take(len as int),
            ),
        decreases at,
    {
        assert(chars@.take(at as int).last() == chars@[at - 1]);
        assert(chars@.take(at as int).drop_last() =~= chars@.take(at - 1));
        at -= 1;
    }
    assert(at > 0 ==> chars@.take(at as int).last() == chars@[at - 1]);
    at
}

/// Where the last part of the path stands, unless that is no name.
fn name_bounds(style: PathStyle, chars: &Vec<char>) -> (r: Option<(usize, usize)>)
    ensures
        match r {
            Some((start, end)) => start < end <= chars@.len() && file_name_of(style, chars@)
                == Some(chars@.subrange(start as int, end as int)) && chars@.take(end as int)
                == trimmed_path(style, chars@) && start == last_part_start(
                style,
                chars@.take(end as int),
            ),
            None => file_name_of(style, chars@) is None,
        },
{
    assert(chars@.take(chars@.len() as int) =~= chars@);
    let end: usize = trimmed_len(style, chars, chars.len());
    let start: usize = last_start(style, chars, end);
    let ghost last = chars@.take(end as int).skip(start as int);
    assert(last =~= chars@.subrange(start as int, end as int));
    proof {
        reveal_strlit(".");
        reveal_strlit("..");
        if last == "."@ {
            assert(last[0] == '.');
        }
        if last == ".."@ {
            assert(last[0] == '.' && last[1] == '.');
        }
    }
    if start == end {
        return None;
    }
    if end - start == 1 && chars[start] == '.' {
        assert(last =~= "."@);
        return None;
    }
    if end - start == 2 && chars[start] == '.' && chars[start + 1] == '.' {
        assert(last =~= ".."@);
        return None;
    }
    assert(last.len() == 1 ==> last[0] == chars@[start as int]);
    assert(last.len() == 2 ==> last[0] == chars@[start as int] && last[1] == chars@[start + 1]);
    Some((start, end))
}

/// The last part of a path, unless that is no name.
pub fn file_name(style: PathStyle, path: &str) -> (r: Option<String>)
    ensures
        match r {
            Some(name) => file_name_of(style, path@) == Some(name@),
            None => file_name_of(style, path@) is None,
        },
{
    let chars = to_chars(path);
    match name_bounds(style, &chars) {
        Some((start, end)) => Some(from_chars(&chars, start, end)),
        None => None,
    }
}

fn find_extension(chars: &Vec<char>, start: usize, end: usize) -> (r: Option<usize>)
    requires
        start < end <= chars@.len(),
    ensures
        match r {
            Some(at) => start < at <= end && extension_start(
                chars@.subrange(start as int, end as int),
            ) == Some(at - start),
            None => extension_start(chars@.subrange(start as int, end as int)) is None,
        },
{
    let mut at: usize = end;
    while at > start + 1
        invariant
            start < at <= end <= chars@.len(),
            extension_start(chars@.subrange(start as int, at as int)) == extension_start(
                chars@.subrange(start as int, end as int),
            ),
        decreases at,
    {
        assert(chars@.subrange(start as int, at as int).last() == chars@[at - 1]);
        assert(chars@.subrange(start as int, at as int).drop_last() =~= chars@.subrange(
            start as int,
            at - 1,
        ));
        if chars[at - 1] == '.' {
            return Some(at);
        }
        at -= 1;
    }
    None
}

/// The extension of the last part of a path, empty where it has none.
pub fn extension(style: PathStyle, path: &str) -> (r: String)
    ensures
        r@ == extension_of(style, path@),
{
    let chars = to_chars(path);
    match name_bounds(style, &chars) {
        Some((start, end)) => match find_extension(&chars, start, end) {
            Some(at) => {
                assert(chars@.subrange(start as int, end as int).skip(at - start)
                    =~= chars@.subrange(at as int, end as int));
                from_chars(&chars, at, end)
            },
            None => String::new(),
        },
        None => String::new(),
    }
}

/// The path with the extension of its last part replaced; unchanged where it has no name.
pub fn with_extension(style: PathStyle, path: &str, extension: &str) -> (r: String)
    ensures
        r@ == with_extension_of(style, path@, extension@),
{
    let chars = to_chars(path);
    match name_bounds(style, &chars) {
        Some((start, end)) => {
            proof {
                lemma_trimmed_is_prefix(style, path@);
            }
            let stem_end: usize = match find_extension(&chars, start, end) {
                Some(at) => at - 1,
                None => end,
            };
            assert(chars@.take(end as int).take(stem_end as int) =~= chars@.subrange(
                0,
                stem_end as int,
            ));
            assert(chars@.take(end as int) =~= chars@.subrange(0, end as int));
            let mut out = from_chars(&chars, 0, stem_end);
            if extension.unicode_len() > 0 {
                out.push('.');
                out.append(extension);
            }
            out
        },
        None => path.to_owned(),
    }
}

/// The path with `name`, which is relative, behind it.
pub fn join(style: PathStyle, path: &str, name: &str) -> (r: String)
    ensures
        r@ == joined(style, path@, name@),
{
    let chars = to_chars(path);
    let mut out = path.to_owned();
    if chars.len() > 0 && !style.is_separator(chars[chars.len() - 1]) {
        out.push(
            match style {
                PathStyle::Posix => '/',
                PathStyle::Windows => '\\',
            },
        );
    }
    out.append(name);
    out
}

/// The directory that the last part of a path stands in, where the path has a part.
pub fn parent(style: PathStyle, path: &str) -> (r: Option<String>)
    ensures
        match r {
            Some(directory) => trimmed_path(style, path@).len() > 0 && directory@ == directory_of(
                style,
                path@,
            ),
            None => trimmed_path(style, path@).len() == 0,
        },
{
    let chars = to_chars(path);
    assert(chars@.take(chars@.len() as int) =~= chars@);
    let end: usize = trimmed_len(style, &chars, chars.len());
    if end == 0 {
        return None;
    }
    let start: usize = last_start(style, &chars, end);
    assert(chars@.take(end as int).take(start as int) =~= chars@.take(start as int));
    let cut: usize = trimmed_len(style, &chars, start);
    let keep: usize = if cut == 0 && start > 0 { 1 } else { cut };
    assert(chars@.take(start as int).take(1) =~= chars@.take(1) || start == 0);
    assert(chars@.subrange(0, keep as int) =~= chars@.take(keep as int));
    Some(from_chars(&chars, 0, keep))
}

/// The path with its last part replaced by `name`, which holds no separator.
pub fn with_file_name(style: PathStyle, path: &str, name: &str) -> (r: String)
    ensures
        r@ == with_file_name_of(style, path@, name@),
{
    match file_name(style, path) {
        Some(_) => match parent(style, path) {
            Some(directory) => join(style, directory.as_str(), name),
            None => {
                proof {
                    let short = trimmed_path(style, path@);
                    assert(short.skip(last_part_start(style, short)).len() == 0) by {
                        assert(short.len() == 0);
                    }
                }
                join(style, path, name)
            },
        },
        None => join(style, path, name),
    }
}

/// The pieces of a path between its separators, the empty ones with them.
pub open spec fn pieces(style: PathStyle, path: Seq<char>) -> Seq<Seq<char>>
    decreases path.len(),
{
    if path.len() == 0 {
        seq![Seq::<char>::empty()]
    } else {
        let before = pieces(style, path.drop_last());
        if style.separates(path.last()) {
            before.push(Seq::<char>::empty())
        } else {
            before.update(before.len() - 1, before.last().push(path.last()))
        }
    }
}

/// The pieces that say something: not the empty ones, and not those that stand for the same
/// directory, but for a leading one.
pub open spec fn parts_of(pieces: Seq<Seq<char>>) -> Seq<Seq<char>>
    decreases pieces.len(),
{
    if pieces.len() == 0 {
        seq![]
    } else {
        let before = parts_of(pieces.drop_last());
        let piece = pieces.last();
        if piece.len() == 0 || (piece == "."@ && pieces.len() > 1) {
            before
        } else {
            before.push(piece)
        }
    }
}

/// Whether the two paths are the same: both begin at the root or neither does, and they have
/// the same parts.
pub open spec fn same_path(style: PathStyle, a: Seq<char>, b: Seq<char>) -> bool {
    &&& (a.len() > 0 && style.separates(a[0])) == (b.len() > 0 && style.separates(b[0]))
    &&& parts_of(pieces(style, a)) == parts_of(pieces(style, b))
}

fn split_pieces(style: PathStyle, path: &str) -> (r: Vec<String>)
    ensures
        text_views(r@) == pieces(style, path@),
{
    let chars = to_chars(path);
    let mut out: Vec<String> = Vec::new();
    let mut current = String::new();
    let mut i: usize = 0;
    assert(text_views(out@).push(current@) =~= pieces(
        style,
        chars@.take(0),
    ));
    while i < chars.len()
        invariant
            i <= chars@.len(),
            text_views(out@).push(current@) == pieces(
                style,
                chars@.take(i as int),
            ),
        decreases chars@.len() - i,
    {
        let ghost before = text_views(out@).push(current@);
        proof {
            assert(chars@.take(i + 1).drop_last() =~= chars@.take(i as int));
            assert(chars@.take(i + 1).last() == chars@[i as int]);
            lemma_pushed_text(out@, current);
        }
        if style.is_separator(chars[i]) {
            out.push(current);
            current = String::new();
            assert(text_views(out@).push(current@) =~= before.push(
                Seq::<char>::empty(),
            ));
        } else {
            current.push(chars[i]);
            assert(text_views(out@).push(current@) =~= before.update(
                before.len() - 1,
                before.last().push(chars@[i as int]),
            ));
        }
        i += 1;
    }
    assert(chars@.take(chars@.len() as int) =~= chars@);
    proof {
        lemma_pushed_text(out@, current);
    }
    out.push(current);
    out
}

fn path_parts(style: PathStyle, path: &str) -> (r: Vec<String>)
    ensures
        text_views(r@) == parts_of(pieces(style, path@)),
{
    let split = split_pieces(style, path);
    let ghost all = text_views(split@);
    let mut out: Vec<String> = Vec::new();
    let mut i: usize = 0;
    assert(text_views(out@) =~= parts_of(all.take(0)));
    while i < split.len()
        invariant
            i <= split@.len(),
            all == text_views(split@),
            text_views(out@) == parts_of(all.take(i as int)),
        decreases split@.len() - i,
    {
        proof {
            assert(all.take(i + 1).drop_last() =~= all.take(i as int));
            assert(all.take(i + 1).last() == split@[i as int]@);
        }
        let dropped = split[i].as_str().unicode_len() == 0 || (i > 0 && same_text(
            split[i].as_str(),
            ".",
        ));
        if !dropped {
            let copy = split[i].clone();
            proof {
                lemma_pushed_text(out@, copy);
            }
            out.push(copy);
        }
        i += 1;
    }
    assert(all.take(all.len() as int) =~= all);
    out
}

fn is_rooted(style: PathStyle, path: &str) -> (r: bool)
    ensures
        r == (path@.len() > 0 && style.separates(path@[0])),
{
    let chars = to_chars(path);
    chars.len() > 0 && style.is_separator(chars[0])
}

/// Whether the two paths are the same.
pub fn paths_equal(style: PathStyle, a: &str, b: &str) -> (r: bool)
    ensures
        r == same_path(style, a@, b@),
{
    if is_rooted(style, a) != is_rooted(style, b) {
        return false;
    }
    let left = path_parts(style, a);
    let right = path_parts(style, b);
    let ghost x = text_views(left@);
    let ghost y = text_views(right@);
    assert(x.len() == left@.len() && y.len() == right@.len());
    if left.len() != right.len() {
        return false;
    }
    let mut i: usize = 0;
    while i < left.len()
        invariant
            i <= left@.len() == right@.len(),
            x == text_views(left@),
            y == text_views(right@),
            x == parts_of(pieces(style, a@)),
            y == parts_of(pieces(style, b@)),
            forall|k: int| 0 <= k < i ==> x[k] == y[k],
        decreases left@.len() - i,
    {
        if !same_text(left[i].as_str(), right[i].as_str()) {
            assert(x[i as int] != y[i as int]);
            return false;
        }
        assert(x[i as int] == y[i as int]);
        i += 1;
    }
    assert(x =~= y);
    true
}

} // verus!
