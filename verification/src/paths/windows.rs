//! Paths on Windows. A path may begin with a prefix: a drive, a server with a share, a device, or one
//! of the verbatim forms, which begin with two backslashes, a question mark and a backslash. After the
//! prefix come the components, between slashes and backslashes. In a verbatim path only backslashes
//! separate components, and a `.` is one of them.

use vstd::prelude::*;

use crate::paths;

verus! {

/// What a path begins with.
#[derive(Debug, Clone, Copy, PartialEq, Eq, Structural)]
pub enum PrefixKind {
    Bare,
    /// `\\?\cat_pics`
    Verbatim,
    /// `\\?\UNC\server\share`
    VerbatimShare,
    /// `\\?\C:`
    VerbatimDrive,
    /// `\\.\COM1`
    Device,
    /// `\\server\share`
    Share,
    /// `C:`
    Drive,
}

/// Whether a character separates components outside verbatim paths.
pub open spec fn is_separator(c: char) -> bool {
    c == '/' || c == '\\'
}

/// Whether a character names a drive.
pub open spec fn is_letter(c: char) -> bool {
    'a' <= c <= 'z' || 'A' <= c <= 'Z'
}

/// The letter of a drive, whichever case it is written in.
pub open spec fn drive_of(c: char) -> char {
    if 'a' <= c <= 'z' {
        ((c as u32) - 32) as char
    } else {
        c
    }
}

/// The first separator at or after `i`, or the end of the path.
pub open spec fn part_end(path: Seq<char>, i: int, verbatim: bool) -> int
    decreases path.len() - i,
{
    if i < 0 || i >= path.len() {
        path.len() as int
    } else if path[i] == '\\' || (!verbatim && path[i] == '/') {
        i
    } else {
        part_end(path, i + 1, verbatim)
    }
}

/// The end of a server and a share, where the server begins at `i`.
pub open spec fn share_end(path: Seq<char>, i: int, verbatim: bool) -> int {
    let server = part_end(path, i, verbatim);
    if server < path.len() && part_end(path, server + 1, verbatim) > server + 1 {
        part_end(path, server + 1, verbatim)
    } else {
        server
    }
}

/// Whether a drive begins at `i`.
pub open spec fn is_drive(path: Seq<char>, i: int) -> bool {
    0 <= i && i + 1 < path.len() && is_letter(path[i]) && path[i + 1] == ':'
}

/// What a path begins with, and where that ends.
pub open spec fn prefix(path: Seq<char>) -> (PrefixKind, int) {
    if path.len() >= 2 && is_separator(path[0]) && is_separator(path[1]) {
        if path.len() >= 4 && path[0] == '\\' && path[1] == '\\' && path[2] == '?' && path[3] == '\\' {
            if path.len() >= 8 && path[4] == 'U' && path[5] == 'N' && path[6] == 'C' && path[7] == '\\' {
                (PrefixKind::VerbatimShare, share_end(path, 8, true))
            } else if is_drive(path, 4) && (path.len() == 6 || is_separator(path[6])) {
                (PrefixKind::VerbatimDrive, 6)
            } else {
                (PrefixKind::Verbatim, part_end(path, 4, true))
            }
        } else if path.len() >= 4 && path[2] == '.' && is_separator(path[3]) {
            (PrefixKind::Device, part_end(path, 4, false))
        } else {
            let server = part_end(path, 2, false);
            if server > 2 && share_end(path, 2, false) > server {
                (PrefixKind::Share, share_end(path, 2, false))
            } else {
                (PrefixKind::Bare, 0)
            }
        }
    } else if is_drive(path, 0) {
        (PrefixKind::Drive, 2)
    } else {
        (PrefixKind::Bare, 0)
    }
}

/// Whether components are kept as they are written.
pub open spec fn is_verbatim(kind: PrefixKind) -> bool {
    kind == PrefixKind::Verbatim || kind == PrefixKind::VerbatimShare || kind == PrefixKind::VerbatimDrive
}

/// Where the part of a prefix begins that tells it from others of its kind.
pub open spec fn name_start(kind: PrefixKind) -> int {
    match kind {
        PrefixKind::Bare => 0,
        PrefixKind::Verbatim => 4,
        PrefixKind::VerbatimShare => 8,
        PrefixKind::VerbatimDrive => 4,
        PrefixKind::Device => 4,
        PrefixKind::Share => 2,
        PrefixKind::Drive => 0,
    }
}

/// A character as it stands in a path whose only separator is `/` and in which a `.` may be left out.
pub open spec fn plain_char(verbatim: bool, c: char) -> char {
    if c == '\\' {
        '/'
    } else if !verbatim {
        c
    } else if c == '/' {
        '\\'
    } else if c == '.' {
        '\0'
    } else if c == '\0' {
        '.'
    } else {
        c
    }
}

/// A part of a path, character by character, as it stands in a path whose only separator is `/`.
pub open spec fn plain_chars(part: Seq<char>, verbatim: bool) -> Seq<char> {
    part.map_values(|c: char| plain_char(verbatim, c))
}

/// What tells a prefix from others of its kind.
pub open spec fn prefix_name(path: Seq<char>) -> Seq<char> {
    let (kind, end) = prefix(path);
    if kind == PrefixKind::Drive || kind == PrefixKind::VerbatimDrive {
        seq![drive_of(path[name_start(kind)])]
    } else {
        plain_chars(path.subrange(name_start(kind), end), is_verbatim(kind))
    }
}

/// What follows the prefix, as a path whose only separator is `/`. A server with a share and a device
/// have a root, written or not.
pub open spec fn after_prefix(path: Seq<char>) -> Seq<char> {
    let (kind, end) = prefix(path);
    let rest = path.subrange(end, path.len() as int);
    if rest.len() == 0 {
        if kind == PrefixKind::Share || kind == PrefixKind::Device {
            seq!['/']
        } else {
            seq![]
        }
    } else if is_separator(rest[0]) {
        plain_chars(rest, is_verbatim(kind)).update(0, '/')
    } else {
        plain_chars(rest, is_verbatim(kind))
    }
}

/// How many characters at the beginning of what follows a drive hold no component: a `.` directly after
/// a drive does not count.
pub open spec fn skipped(kind: PrefixKind, rest: Seq<char>) -> int {
    if kind == PrefixKind::Drive && paths::is_dot(rest, 0) {
        paths::component_start(rest, 1)
    } else {
        0
    }
}

/// Where the part that is relative to a directory begins and ends in what follows the prefix, or `None`
/// where the path does not lie under the directory. Both paths have prefixes of this kind.
pub open spec fn rest_span(kind: PrefixKind, rest: Seq<char>, base: Seq<char>) -> Option<(int, int)> {
    let below = base.skip(skipped(kind, base));
    if below.len() == 0 {
        paths::span(rest, below)
    } else {
        let from = skipped(kind, rest);
        match paths::span(rest.skip(from), below) {
            Some((start, end)) => Some((from + start, from + end)),
            None => None,
        }
    }
}

/// The place `at` characters after a prefix, within the path.
pub open spec fn place(path: Seq<char>, at: int) -> int {
    let end = prefix(path).1;
    if end + at <= path.len() {
        end + at
    } else {
        path.len() as int
    }
}

/// Where the part of a path that is relative to a directory begins and ends, or `None` where the path
/// does not lie under the directory.
pub open spec fn span(path: Seq<char>, base: Seq<char>) -> Option<(int, int)> {
    if base.len() == 0 {
        match paths::span(after_prefix(path), seq![]) {
            Some((_, end)) => Some((0, place(path, end))),
            None => None,
        }
    } else if prefix(path).0 != prefix(base).0 || prefix_name(path) != prefix_name(base) {
        None
    } else {
        match rest_span(prefix(path).0, after_prefix(path), after_prefix(base)) {
            Some((start, end)) => Some((place(path, start), place(path, end))),
            None => None,
        }
    }
}

/// The path relative to a directory, or `None` where it does not lie under the directory.
pub open spec fn relative(path: Seq<char>, base: Seq<char>) -> Option<Seq<char>> {
    match span(path, base) {
        Some((start, end)) => Some(path.subrange(start, end)),
        None => None,
    }
}

fn separates(c: char) -> (r: bool)
    ensures
        r == is_separator(c),
{
    c == '/' || c == '\\'
}

fn find_part_end(path: &Vec<char>, from: usize, verbatim: bool) -> (r: usize)
    requires
        from <= path.len(),
    ensures
        r == part_end(path@, from as int, verbatim),
        from <= r <= path.len(),
{
    let mut i: usize = from;
    while i < path.len() && path[i] != '\\' && (verbatim || path[i] != '/')
        invariant
            from <= i <= path.len(),
            part_end(path@, from as int, verbatim) == part_end(path@, i as int, verbatim),
        decreases path.len() - i,
    {
        i = i + 1;
    }
    i
}

fn find_share_end(path: &Vec<char>, from: usize, verbatim: bool) -> (r: usize)
    requires
        from <= path.len(),
    ensures
        r == share_end(path@, from as int, verbatim),
        from <= r <= path.len(),
{
    let server: usize = find_part_end(path, from, verbatim);
    if server < path.len() {
        let share: usize = find_part_end(path, server + 1, verbatim);
        if share > server + 1 {
            return share;
        }
    }
    server
}

fn drive_at(path: &Vec<char>, i: usize) -> (r: bool)
    requires
        i <= path.len(),
    ensures
        r == is_drive(path@, i as int),
{
    if path.len() - i < 2 {
        return false;
    }
    let c = path[i];
    (('a' <= c && c <= 'z') || ('A' <= c && c <= 'Z')) && path[i + 1] == ':'
}

fn find_prefix(path: &Vec<char>) -> (r: (PrefixKind, usize))
    ensures
        prefix(path@) == (r.0, r.1 as int),
        r.1 <= path.len(),
        name_start(r.0) <= r.1,
        r.0 == PrefixKind::Drive || r.0 == PrefixKind::VerbatimDrive ==> name_start(r.0) < path.len(),
{
    if path.len() >= 2 && separates(path[0]) && separates(path[1]) {
        if path.len() >= 4 && path[0] == '\\' && path[1] == '\\' && path[2] == '?' && path[3] == '\\' {
            if path.len() >= 8 && path[4] == 'U' && path[5] == 'N' && path[6] == 'C' && path[7] == '\\' {
                (PrefixKind::VerbatimShare, find_share_end(path, 8, true))
            } else if drive_at(path, 4) && (path.len() == 6 || separates(path[6])) {
                (PrefixKind::VerbatimDrive, 6)
            } else {
                (PrefixKind::Verbatim, find_part_end(path, 4, true))
            }
        } else if path.len() >= 4 && path[2] == '.' && separates(path[3]) {
            (PrefixKind::Device, find_part_end(path, 4, false))
        } else {
            let server: usize = find_part_end(path, 2, false);
            let end: usize = find_share_end(path, 2, false);
            if server > 2 && end > server {
                (PrefixKind::Share, end)
            } else {
                (PrefixKind::Bare, 0)
            }
        }
    } else if drive_at(path, 0) {
        (PrefixKind::Drive, 2)
    } else {
        (PrefixKind::Bare, 0)
    }
}

fn verbatim_kind(kind: PrefixKind) -> (r: bool)
    ensures
        r == is_verbatim(kind),
{
    match kind {
        PrefixKind::Verbatim | PrefixKind::VerbatimShare | PrefixKind::VerbatimDrive => true,
        _ => false,
    }
}

fn to_plain(c: char, verbatim: bool) -> (r: char)
    ensures
        r == plain_char(verbatim, c),
{
    if c == '\\' {
        '/'
    } else if !verbatim {
        c
    } else if c == '/' {
        '\\'
    } else if c == '.' {
        '\0'
    } else if c == '\0' {
        '.'
    } else {
        c
    }
}

fn to_plain_chars(path: &Vec<char>, from: usize, to: usize, verbatim: bool) -> (r: Vec<char>)
    requires
        from <= to <= path.len(),
    ensures
        r@ == plain_chars(path@.subrange(from as int, to as int), verbatim),
{
    let mut r: Vec<char> = Vec::new();
    let mut i: usize = from;
    while i < to
        invariant
            from <= i <= to <= path.len(),
            r@ == plain_chars(path@.subrange(from as int, i as int), verbatim),
        decreases to - i,
    {
        r.push(to_plain(path[i], verbatim));
        assert(r@ =~= plain_chars(path@.subrange(from as int, i + 1), verbatim));
        i = i + 1;
    }
    r
}

fn upper(c: char) -> (r: char)
    ensures
        r == drive_of(c),
{
    match c {
        'a' => 'A',
        'b' => 'B',
        'c' => 'C',
        'd' => 'D',
        'e' => 'E',
        'f' => 'F',
        'g' => 'G',
        'h' => 'H',
        'i' => 'I',
        'j' => 'J',
        'k' => 'K',
        'l' => 'L',
        'm' => 'M',
        'n' => 'N',
        'o' => 'O',
        'p' => 'P',
        'q' => 'Q',
        'r' => 'R',
        's' => 'S',
        't' => 'T',
        'u' => 'U',
        'v' => 'V',
        'w' => 'W',
        'x' => 'X',
        'y' => 'Y',
        'z' => 'Z',
        _ => c,
    }
}

fn find_name(path: &Vec<char>, kind: PrefixKind, end: usize) -> (r: Vec<char>)
    requires
        prefix(path@) == (kind, end as int),
        end <= path.len(),
        name_start(kind) <= end,
        kind == PrefixKind::Drive || kind == PrefixKind::VerbatimDrive ==> name_start(kind) < path.len(),
    ensures
        r@ == prefix_name(path@),
{
    let start: usize = match kind {
        PrefixKind::Bare => 0,
        PrefixKind::Verbatim => 4,
        PrefixKind::VerbatimShare => 8,
        PrefixKind::VerbatimDrive => 4,
        PrefixKind::Device => 4,
        PrefixKind::Share => 2,
        PrefixKind::Drive => 0,
    };
    match kind {
        PrefixKind::Drive | PrefixKind::VerbatimDrive => {
            let mut r: Vec<char> = Vec::new();
            r.push(upper(path[start]));
            assert(r@ =~= prefix_name(path@));
            r
        },
        _ => to_plain_chars(path, start, end, verbatim_kind(kind)),
    }
}

fn find_rest(path: &Vec<char>, kind: PrefixKind, end: usize) -> (r: Vec<char>)
    requires
        prefix(path@) == (kind, end as int),
        end <= path.len(),
    ensures
        r@ == after_prefix(path@),
{
    let mut r = to_plain_chars(path, end, path.len(), verbatim_kind(kind));
    if r.len() == 0 {
        match kind {
            PrefixKind::Share | PrefixKind::Device => {
                r.push('/');
            },
            _ => {},
        }
    } else if separates(path[end]) {
        r.set(0, '/');
    }
    assert(r@ =~= after_prefix(path@));
    r
}

fn within(path: &Vec<char>, end: usize, at: usize) -> (r: usize)
    requires
        prefix(path@).1 == end,
        end <= path.len(),
    ensures
        r == place(path@, at as int),
{
    if at <= path.len() - end {
        end + at
    } else {
        path.len()
    }
}

fn find_skipped(kind: PrefixKind, rest: &Vec<char>) -> (r: usize)
    ensures
        r == skipped(kind, rest@),
        r <= rest.len(),
{
    match kind {
        PrefixKind::Drive => {
            if paths::dot_at(rest, 0) {
                paths::find_start(rest, 1)
            } else {
                0
            }
        },
        _ => 0,
    }
}

fn chars_from(chars: &Vec<char>, from: usize) -> (r: Vec<char>)
    requires
        from <= chars.len(),
    ensures
        r@ == chars@.skip(from as int),
{
    let mut r: Vec<char> = Vec::new();
    let mut i: usize = from;
    while i < chars.len()
        invariant
            from <= i <= chars.len(),
            r@ == chars@.subrange(from as int, i as int),
        decreases chars.len() - i,
    {
        r.push(chars[i]);
        assert(r@ =~= chars@.subrange(from as int, i + 1));
        i = i + 1;
    }
    assert(r@ =~= chars@.skip(from as int));
    r
}

fn find_rest_span(kind: PrefixKind, rest: &Vec<char>, base: &Vec<char>) -> (r: Option<(usize, usize)>)
    ensures
        match r {
            Some((start, end)) => rest_span(kind, rest@, base@) == Some((start as int, end as int)) && start
                <= end <= rest.len(),
            None => rest_span(kind, rest@, base@) is None,
        },
{
    let below = chars_from(base, find_skipped(kind, base));
    if below.len() == 0 {
        return paths::find_span(rest, &below);
    }
    let from: usize = find_skipped(kind, rest);
    match paths::find_span(&chars_from(rest, from), &below) {
        Some((start, end)) => Some((from + start, from + end)),
        None => None,
    }
}

/// Where the part of a path that is relative to a directory begins and ends.
pub(crate) fn find_span(path: &Vec<char>, base: &Vec<char>) -> (r: Option<(usize, usize)>)
    ensures
        match r {
            Some((start, end)) => span(path@, base@) == Some((start as int, end as int)) && start <= end
                <= path.len(),
            None => span(path@, base@) is None,
        },
{
    let (kind, end) = find_prefix(path);
    let rest = find_rest(path, kind, end);
    if base.len() == 0 {
        let none: Vec<char> = Vec::new();
        assert(none@ =~= seq![]);
        return match paths::find_span(&rest, &none) {
            Some((_, stop)) => Some((0, within(path, end, stop))),
            None => None,
        };
    }
    let (base_kind, base_end) = find_prefix(base);
    if kind != base_kind {
        return None;
    }
    let name = find_name(path, kind, end);
    let base_name = find_name(base, base_kind, base_end);
    assert(name@.subrange(0, name@.len() as int) =~= name@);
    assert(base_name@.subrange(0, base_name@.len() as int) =~= base_name@);
    if !paths::same_chars(&name, 0, name.len(), &base_name, 0, base_name.len()) {
        return None;
    }
    let base_rest = find_rest(base, base_kind, base_end);
    match find_rest_span(kind, &rest, &base_rest) {
        Some((start, stop)) => Some((within(path, end, start), within(path, end, stop))),
        None => None,
    }
}

/// What follows a prefix, without a `.` that does not count.
pub open spec fn counted_rest(path: Seq<char>) -> Seq<char> {
    after_prefix(path).skip(skipped(prefix(path).0, after_prefix(path)))
}

/// A path has a relative path exactly where it begins with the prefix and with the components of the
/// directory.
pub proof fn lemma_relative_means_prefix(path: Seq<char>, base: Seq<char>)
    requires
        base.len() > 0,
    ensures
        relative(path, base) is Some <==> prefix(path).0 == prefix(base).0 && prefix_name(path)
            == prefix_name(base) && paths::laws::begins_with(counted_rest(path), counted_rest(base)),
{
    paths::laws::lemma_relative_means_prefix(counted_rest(path), counted_rest(base));
    if counted_rest(base).len() == 0 {
        assert(counted_rest(base) =~= seq![]);
    }
}

/// In which case the letter of a drive is written does not matter.
pub proof fn lemma_drive_case(letter: char, path: Seq<char>, base: Seq<char>)
    requires
        'a' <= letter <= 'z',
        base.len() > 0,
    ensures
        ({
            let lower = seq![letter, ':'] + base;
            let upper = seq![drive_of(letter), ':'] + base;
            relative(path, lower) is Some <==> relative(path, upper) is Some
        }),
{
    let lower = seq![letter, ':'] + base;
    let upper = seq![drive_of(letter), ':'] + base;
    assert(lower.subrange(2, lower.len() as int) =~= base);
    assert(upper.subrange(2, upper.len() as int) =~= base);
    assert(prefix_name(lower) =~= prefix_name(upper));
}

/// Slashes and backslashes separate components, and nothing else does. Drives are named by the letters
/// of the alphabet, and a small letter stands for the capital one.
pub proof fn lemma_characters(c: char)
    ensures
        is_separator(c) <==> c == '/' || c == '\\',
        is_letter(c) <==> 'a' <= c <= 'z' || 'A' <= c <= 'Z',
        'a' <= c <= 'z' ==> 'A' <= drive_of(c) <= 'Z' && drive_of(c) as int - 'A' as int == c as int
            - 'a' as int,
        !('a' <= c <= 'z') ==> drive_of(c) == c,
{
}

/// A part of a path ends at the first separator: a backslash, or outside verbatim paths a slash. Without
/// one it ends with the path.
pub proof fn lemma_part_end(path: Seq<char>, i: int, verbatim: bool)
    requires
        0 <= i <= path.len(),
    ensures
        ({
            let end = part_end(path, i, verbatim);
            &&& i <= end <= path.len()
            &&& end < path.len() ==> path[end] == '\\' || !verbatim && path[end] == '/'
            &&& forall|k: int|
                i <= k < end ==> #[trigger] path[k] != '\\' && (path[k] != '/' || verbatim)
        }),
    decreases path.len() - i,
{
    if i < path.len() && path[i] != '\\' && (verbatim || path[i] != '/') {
        lemma_part_end(path, i + 1, verbatim);
    }
}

/// What a path begins with: a letter and a colon are a drive, and two separators begin a server with a
/// share, a device or a verbatim path. Any other path has no prefix.
pub proof fn lemma_prefixes(path: Seq<char>)
    ensures
        ({
            let doubled = path.len() >= 2 && is_separator(path[0]) && is_separator(path[1]);
            let verbatim = path.len() >= 4 && path[0] == '\\' && path[1] == '\\' && path[2] == '?' && path[3]
                == '\\';
            let unc = path.len() >= 8 && path[4] == 'U' && path[5] == 'N' && path[6] == 'C' && path[7]
                == '\\';
            let drive = path.len() >= 2 && is_letter(path[0]) && path[1] == ':';
            let kind = prefix(path).0;
            &&& drive ==> prefix(path) == (PrefixKind::Drive, 2int)
            &&& !doubled && !drive ==> prefix(path) == (PrefixKind::Bare, 0int)
            &&& verbatim <==> kind == PrefixKind::Verbatim || kind == PrefixKind::VerbatimShare || kind
                == PrefixKind::VerbatimDrive
            &&& verbatim && unc ==> kind == PrefixKind::VerbatimShare
            &&& kind == PrefixKind::VerbatimDrive ==> prefix(path).1 == 6 && is_letter(path[4]) && path[5]
                == ':'
            &&& kind == PrefixKind::Device <==> doubled && !verbatim && path.len() >= 4 && path[2] == '.'
                && is_separator(path[3])
            &&& kind == PrefixKind::Share ==> doubled && !verbatim
        }),
{
}

/// The path with slashes for backslashes.
pub open spec fn slashed(path: Seq<char>) -> Seq<char> {
    path.map_values(
        |c: char|
            if c == '\\' {
                '/'
            } else {
                c
            },
    )
}

/// A path on a drive lies under a directory of the same drive exactly if it does with slashes for
/// backslashes on Unix, and what is left of it is the same. It lies under no directory of another drive.
pub proof fn lemma_drive_paths(drive: char, other: char, path: Seq<char>, base: Seq<char>)
    requires
        is_letter(drive),
        is_letter(other),
        !paths::is_dot(slashed(path), 0),
        !paths::is_dot(slashed(base), 0),
    ensures
        ({
            let whole = seq![drive, ':'] + path;
            let under = seq![other, ':'] + base;
            let expected = paths::relative(slashed(path), slashed(base));
            &&& drive_of(drive) != drive_of(other) ==> relative(whole, under) is None
            &&& drive_of(drive) == drive_of(other) ==> (relative(whole, under) is Some) == (expected is Some)
            &&& drive_of(drive) == drive_of(other) && expected is Some ==> slashed(
                relative(whole, under)->0,
            ) == expected->0
        }),
{
    let whole = seq![drive, ':'] + path;
    let under = seq![other, ':'] + base;
    assert(whole.subrange(2, whole.len() as int) =~= path);
    assert(under.subrange(2, under.len() as int) =~= base);
    assert(plain_chars(path, false) =~= slashed(path));
    assert(plain_chars(base, false) =~= slashed(base));
    assert(after_prefix(whole) =~= slashed(path));
    assert(after_prefix(under) =~= slashed(base));
    assert(prefix_name(whole)[0] == drive_of(drive));
    assert(prefix_name(under)[0] == drive_of(other));
    if drive_of(drive) == drive_of(other) {
        assert(prefix_name(whole) =~= prefix_name(under));
        assert(slashed(path).skip(0) =~= slashed(path));
        assert(slashed(base).skip(0) =~= slashed(base));
        if paths::relative(slashed(path), slashed(base)) is Some {
            lemma_span_within(slashed(path), slashed(base));
            let (start, end) = paths::span(slashed(path), slashed(base))->0;
            assert(slashed(whole.subrange(2 + start, 2 + end)) =~= slashed(path).subrange(start, end));
        }
    }
}

proof fn lemma_span_within(path: Seq<char>, base: Seq<char>)
    requires
        paths::span(path, base) is Some,
    ensures
        ({
            let (start, end) = paths::span(path, base)->0;
            0 <= start <= end <= path.len()
        }),
{
    let n = path.len() as int;
    let front = paths::front_len(path);
    if base.len() == 0 {
        if front <= n {
            lemma_last_end_within(path, front, n);
        }
    } else {
        lemma_after_within(path, front, base, paths::front_len(base));
        let i = paths::after_components(path, front, base, paths::front_len(base))->0;
        paths::lemma_component_bounds(path, i);
        lemma_last_end_within(path, paths::component_start(path, i), n);
    }
}

proof fn lemma_last_end_within(path: Seq<char>, start: int, end: int)
    requires
        0 <= start <= end <= path.len(),
    ensures
        start <= paths::last_end(path, start, end) <= end,
    decreases end,
{
    if end > start && end > 0 {
        lemma_last_end_within(path, start, end - 1);
    }
}

proof fn lemma_after_within(path: Seq<char>, i: int, base: Seq<char>, j: int)
    requires
        0 <= i <= path.len(),
        0 <= j <= base.len(),
    ensures
        paths::after_components(path, i, base, j) is Some ==> i <= paths::after_components(path, i, base, j)->0
            <= path.len(),
    decreases base.len() - j,
{
    let b = paths::component_start(base, j);
    let p = paths::component_start(path, i);
    paths::lemma_component_bounds(base, j);
    paths::lemma_component_bounds(path, i);
    if b < base.len() && p < path.len() {
        paths::lemma_component_bounds(base, b);
        paths::lemma_component_bounds(path, p);
        lemma_after_within(path, paths::component_end(path, p), base, paths::component_end(base, b));
    }
}

/// What follows a prefix keeps its length and begins with a slash where it begins with a separator. Where
/// nothing follows, a server with a share and a device have their root, and nothing else has one.
pub proof fn lemma_after_prefix(path: Seq<char>)
    ensures
        ({
            let (kind, end) = prefix(path);
            let rest = path.subrange(end, path.len() as int);
            let after = after_prefix(path);
            &&& rest.len() == 0 && (kind is Share || kind is Device) ==> after == seq!['/']
            &&& rest.len() == 0 && !(kind is Share) && !(kind is Device) ==> after.len() == 0
            &&& rest.len() > 0 ==> after.len() == rest.len()
            &&& rest.len() > 0 && (rest[0] == '/' || rest[0] == '\\') ==> after[0] == '/'
            &&& rest.len() > 0 && rest[0] != '/' && rest[0] != '\\' ==> after[0] != '/'
            &&& forall|i: int|
                0 < i < rest.len() ==> (#[trigger] after[i] == '/' <==> rest[i] == '\\' || rest[i] == '/'
                    && !(kind is Verbatim || kind is VerbatimShare || kind is VerbatimDrive))
        }),
{
}

} // verus!
