//! Paths below the directories that the program keeps its files in.

use vstd::prelude::*;
use crate::text;

verus! {

/// The directories that paths begin at.
#[derive(Clone, Copy, Debug, PartialEq, Eq, Structural)]
pub enum PathBase {
    /// The home directory of the program.
    Home,
    /// The working directory of the project.
    Project,
}

/// A path: a base and the components below it.
#[derive(Debug, PartialEq, Eq)]
pub struct StorePath {
    pub base: PathBase,
    pub components: Vec<String>,
}

/// The view of a path.
#[verifier::ext_equal]
pub struct PathView {
    pub base: PathBase,
    pub components: Seq<Seq<char>>,
}

impl View for StorePath {
    type V = PathView;

    open spec fn view(&self) -> PathView {
        PathView { base: self.base, components: text::views(self.components@) }
    }
}

impl PathView {
    /// The path one component further down.
    pub open spec fn join(self, component: Seq<char>) -> PathView {
        PathView { base: self.base, components: self.components.push(component) }
    }
}

impl StorePath {
    /// The path one component further down.
    pub fn join(self, component: String) -> (res: StorePath)
        ensures
            res@ == self@.join(component@),
    {
        let mut components = self.components;
        let ghost before = components@;
        components.push(component);
        assert(text::views(components@) == text::views(before).push(component@));
        StorePath { base: self.base, components }
    }

    /// The base itself.
    pub fn at(base: PathBase) -> (res: StorePath)
        ensures
            res@ == (PathView { base, components: Seq::empty() }),
    {
        let components: Vec<String> = Vec::new();
        assert(text::views(components@) == Seq::<Seq<char>>::empty());
        StorePath { base, components }
    }
}

/// The characters that an identifier in a path may be written with.
pub open spec fn is_component_char(c: char) -> bool {
    text::is_ascii_alphanumeric(c) || c == '_' || c == '-'
}

/// Whether a text may stand as a component of a path: it has no separator, and is neither `.` nor
/// `..` nor empty nor long.
pub open spec fn is_component(value: Seq<char>) -> bool {
    0 < text::byte_length(value) <= 128 && forall|i: int|
        0 <= i < value.len() ==> is_component_char(#[trigger] value[i])
}

/// The message for a text that may not.
pub open spec fn component_message(label: Seq<char>) -> Seq<char> {
    label + " must contain only ASCII letters, digits, `_`, or `-`"@
}

/// Whether a text may stand as a component of a path.
pub fn is_valid_component(value: &str) -> (res: bool)
    ensures
        res == is_component(value@),
{
    let length = text::byte_len(value);
    let mut valid = length > 0 && length <= 128;
    let chars = text::chars_of(value);
    let mut i: usize = 0;
    while valid && i < chars.len()
        invariant
            i <= chars@.len(),
            chars@ == value@,
            length == text::byte_length(value@),
            valid ==> 0 < length <= 128,
            valid ==> forall|j: int| 0 <= j < i ==> is_component_char(#[trigger] chars@[j]),
            !valid ==> !is_component(value@),
        decreases chars@.len() - i + (if valid { 1int } else { 0 }),
    {
        let c = chars[i];
        if text::char_is_ascii_alphabetic(c) || text::char_is_ascii_digit(c) || c == '_' || c
            == '-' {
            i = i + 1;
        } else {
            assert(!is_component_char(value@[i as int]));
            valid = false;
        }
    }
    valid
}

/// The end of the part of a path that begins at `from`: the next slash, or the end of the path.
pub open spec fn part_end(path: Seq<char>, from: int) -> int
    decreases path.len() - from,
{
    if 0 <= from < path.len() && path[from] != '/' {
        part_end(path, from + 1)
    } else {
        from
    }
}

pub proof fn lemma_part_end(path: Seq<char>, from: int)
    ensures
        from <= part_end(path, from),
        from <= path.len() ==> part_end(path, from) <= path.len(),
        0 <= from && part_end(path, from) < path.len() ==> path[part_end(path, from)] == '/',
        forall|i: int| from <= i < part_end(path, from) ==> (#[trigger] path[i]) != '/',
    decreases path.len() - from,
{
    if 0 <= from < path.len() && path[from] != '/' {
        lemma_part_end(path, from + 1);
    }
}

/// How far below the directory a path is after a part, which began `depth` below it: `..` leads up,
/// nothing and `.` stay, and anything else leads down. `None` where it would lead out.
pub open spec fn depth_after(depth: nat, part: Seq<char>) -> Option<nat> {
    if part == seq!['.', '.'] {
        if depth == 0 {
            None
        } else {
            Some((depth - 1) as nat)
        }
    } else if part.len() == 0 || part == seq!['.'] {
        Some(depth)
    } else {
        Some(depth + 1)
    }
}

/// Whether the parts of a path from `from` on, `depth` below the directory, never lead out of it.
pub open spec fn stays_below_from(path: Seq<char>, from: int, depth: nat) -> bool
    decreases path.len() - from,
{
    let end = part_end(path, from);
    match depth_after(depth, path.subrange(from, end)) {
        None => false,
        Some(next) => {
            proof {
                lemma_part_end(path, from);
            }
            if 0 <= from <= end < path.len() {
                stays_below_from(path, end + 1, next)
            } else {
                true
            }
        },
    }
}

/// Whether a path that is joined to a directory never leads out of it: it does not begin at the root,
/// and no `..` in it leads further up than the parts before it led down.
pub open spec fn stays_below(path: Seq<char>) -> bool {
    (path.len() == 0 || path[0] != '/') && stays_below_from(path, 0, 0)
}

/// Whether a path that is joined to a directory never leads out of it.
pub fn stays_below_directory(path: &str) -> (res: bool)
    ensures
        res == stays_below(path@),
{
    let chars = text::chars_of(path);
    if chars.len() > 0 && chars[0] == '/' {
        return false;
    }
    let mut from: usize = 0;
    let mut depth: usize = 0;
    loop
        invariant
            chars@ == path@,
            path@.len() == 0 || path@[0] != '/',
            depth <= from <= chars@.len(),
            stays_below(path@) == stays_below_from(path@, from as int, depth as nat),
        decreases chars@.len() - from,
    {
        let mut end: usize = from;
        while end < chars.len() && chars[end] != '/'
            invariant
                chars@ == path@,
                from <= end <= chars@.len(),
                part_end(path@, from as int) == part_end(path@, end as int),
            decreases chars@.len() - end,
        {
            end = end + 1;
        }
        let ghost part = path@.subrange(from as int, end as int);
        assert(part_end(path@, from as int) == end);
        if end - from == 2 && chars[from] == '.' && chars[from + 1] == '.' {
            assert(part =~= seq!['.', '.']);
            if depth == 0 {
                return false;
            }
            depth = depth - 1;
        } else if end == from || (end - from == 1 && chars[from] == '.') {
            proof {
                assert(part != seq!['.', '.']) by {
                    assert(seq!['.', '.'].len() == 2);
                }
                if end != from {
                    assert(part =~= seq!['.']);
                }
            }
        } else {
            proof {
                assert(part.len() == end - from);
                assert(part[0] == chars@[from as int]);
                if part == seq!['.', '.'] {
                    assert(part[1] == chars@[from + 1]);
                }
                assert(part != seq!['.', '.']);
                if part == seq!['.'] {
                    assert(part[0] == '.');
                }
                assert(part != seq!['.']);
            }
            depth = depth + 1;
        }
        if end == chars.len() {
            return true;
        }
        from = end + 1;
    }
}

/// A single component never leads out of a directory.
pub proof fn components_stay_below(value: Seq<char>)
    requires
        is_component(value),
    ensures
        stays_below(value),
{
    lemma_part_end(value, 0);
    let end = part_end(value, 0);
    if value.len() > 0 {
        assert(is_component_char(value[0]));
    }
    if end < value.len() {
        assert(is_component_char(value[end]));
    }
    assert(value.subrange(0, end) =~= value);
}

/// Paths that are made from a run ID or a name stay below their directory: the component has no
/// separator and is no `.` or `..`.
pub proof fn components_stay_below_their_directory(value: Seq<char>, suffix: Seq<char>)
    requires
        is_component(value),
        suffix == ".js"@ || suffix == ".journal.jsonl"@,
    ensures
        forall|i: int|
            0 <= i < (value + suffix).len() ==> (#[trigger] (value + suffix)[i]) != '/' && (value
                + suffix)[i] != '\\' && (value + suffix)[i] != ':',
        value + suffix != seq!['.'],
        value + suffix != seq!['.', '.'],
        value.len() > 0,
{
    reveal_strlit(".js");
    reveal_strlit(".journal.jsonl");
    if value.len() == 0 {
        assert(value == Seq::<char>::empty());
        assert(text::byte_length(value) == 0);
    }
    assert(is_component_char(value[0]));
    assert((value + suffix)[0] == value[0]);
}

proof fn lemma_never_up(path: Seq<char>, from: int, depth: nat)
    requires
        0 <= from <= path.len(),
        forall|i: int|
            0 <= i < path.len() - 1 ==> !((#[trigger] path[i]) == '.' && path[i + 1] == '.'),
    ensures
        stays_below_from(path, from, depth),
    decreases path.len() - from,
{
    lemma_part_end(path, from);
    let end = part_end(path, from);
    let part = path.subrange(from, end);
    if part == seq!['.', '.'] {
        assert(part.len() == end - from);
        assert(part.len() == 2);
        assert(part[0] == path[from]);
        assert(part[1] == path[from + 1]);
    }
    if end < path.len() {
        lemma_never_up(path, end + 1, depth_after(depth, part)->0);
    }
}

/// A path that begins at the root, or with the way up, leads out of its directory; one that does not
/// begin at the root and has no two dots side by side never does.
pub proof fn paths_lead_out_by_dots_alone(path: Seq<char>)
    ensures
        path.len() > 0 && path[0] == '/' ==> !stays_below(path),
        path.len() >= 2 && path[0] == '.' && path[1] == '.' && (path.len() == 2 || path[2] == '/')
            ==> !stays_below(path),
        (path.len() == 0 || path[0] != '/') && (forall|i: int|
            0 <= i < path.len() - 1 ==> !((#[trigger] path[i]) == '.' && path[i + 1] == '.'))
            ==> stays_below(path),
{
    if path.len() >= 2 && path[0] == '.' && path[1] == '.' && (path.len() == 2 || path[2] == '/') {
        reveal_with_fuel(part_end, 3);
        assert(part_end(path, 0) == 2);
        assert(path.subrange(0, 2) =~= seq!['.', '.']);
    }
    if forall|i: int|
        0 <= i < path.len() - 1 ==> !((#[trigger] path[i]) == '.' && path[i + 1] == '.') {
        lemma_never_up(path, 0, 0);
    }
}

} // verus!
