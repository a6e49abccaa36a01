//! The parts of a path: its components, its last name, and the extension of that.

use crate::text;
use crate::text::{chars_of, copy_text, find_last, join, same_text, slice_text, to_ascii_lowercase};
use vstd::prelude::*;

verus! {

/// The separator of Windows. Its paths may begin with a drive, a share or a device.
pub const BACKSLASH: char = '\\';

/// `c` separates components. The slash does so everywhere but in a verbatim path, and each
/// system may have a separator of its own.
pub open spec fn separates(c: char, separator: char, verbatim: bool) -> bool {
    c == separator || c == '/' && !verbatim
}

/// How many characters stand before the first separator of a path of Windows.
pub open spec fn run_length(s: Seq<char>, verbatim: bool) -> nat
    decreases s.len(),
{
    if s.len() == 0 || separates(s[0], BACKSLASH, verbatim) {
        0
    } else {
        1 + run_length(s.drop_first(), verbatim)
    }
}

/// The size of the name of a server and of a share, with the separator between them. The
/// share may be missing.
pub open spec fn share_length(s: Seq<char>, verbatim: bool) -> nat {
    let server = run_length(s, verbatim);
    let share = shared_length(s, verbatim);
    if share > 0 {
        server + 1 + share
    } else {
        server
    }
}

/// The size of the name of a share behind the name of its server.
pub open spec fn shared_length(s: Seq<char>, verbatim: bool) -> nat {
    let server = run_length(s, verbatim);
    if server < s.len() {
        run_length(s.skip(server as int + 1), verbatim)
    } else {
        0
    }
}

/// `s` begins with a drive: a letter and a colon.
pub open spec fn has_drive(s: Seq<char>) -> bool {
    s.len() >= 2 && s[1] == ':' && ('a' <= s[0] && s[0] <= 'z' || 'A' <= s[0] && s[0] <= 'Z')
}

/// A verbatim path of Windows begins with two backslashes, a question mark and a backslash.
pub open spec fn is_verbatim(path: Seq<char>, separator: char) -> bool {
    &&& separator == BACKSLASH
    &&& path.len() >= 4
    &&& path[0] == BACKSLASH
    &&& path[1] == BACKSLASH
    &&& path[2] == '?'
    &&& path[3] == BACKSLASH
}

/// The size of the prefix of a verbatim path behind its first four characters: a share
/// behind a word for it, a drive that stands alone, or a name.
pub open spec fn verbatim_length(rest: Seq<char>) -> nat {
    if rest.len() >= 4 && rest[0] == 'U' && rest[1] == 'N' && rest[2] == 'C' && separates(
        rest[3],
        BACKSLASH,
        false,
    ) {
        4 + share_length(rest.skip(4), true)
    } else if has_drive(rest) && (rest.len() == 2 || separates(rest[2], BACKSLASH, false)) {
        2
    } else {
        run_length(rest, true)
    }
}

/// The size of the prefix of a path: of a drive, a share or a device, which only paths of
/// Windows have.
pub open spec fn prefix_length(path: Seq<char>, separator: char) -> nat {
    if separator != BACKSLASH {
        0
    } else if is_verbatim(path, separator) {
        4 + verbatim_length(path.skip(4))
    } else if path.len() >= 2 && separates(path[0], BACKSLASH, false) && separates(
        path[1],
        BACKSLASH,
        false,
    ) {
        let rest = path.skip(2);
        if path.len() >= 4 && path[2] == '.' && separates(path[3], BACKSLASH, false) {
            4 + run_length(path.skip(4), false)
        } else if run_length(rest, false) > 0 && shared_length(rest, false) > 0 {
            2 + share_length(rest, false)
        } else {
            0
        }
    } else if has_drive(path) {
        2
    } else {
        0
    }
}

/// The components of a path behind its prefix: what stands between separators, without what
/// is empty and, but for a verbatim path, without the dot that stands for the directory
/// itself.
pub open spec fn components(path: Seq<char>, separator: char) -> Seq<Seq<char>> {
    let verbatim = is_verbatim(path, separator);
    let rest = path.skip(prefix_length(path, separator) as int);
    kept_parts(parts_between(rest, separator, verbatim), verbatim)
}

/// What stands between the separators of a path.
pub open spec fn parts_between(path: Seq<char>, separator: char, verbatim: bool) -> Seq<Seq<char>>
    decreases path.len(),
{
    if path.len() == 0 {
        seq![Seq::empty()]
    } else {
        let parts = parts_between(path.drop_last(), separator, verbatim);
        if separates(path.last(), separator, verbatim) {
            parts.push(Seq::empty())
        } else {
            parts.drop_last().push(parts.last().push(path.last()))
        }
    }
}

/// The parts that are components.
pub open spec fn kept_parts(parts: Seq<Seq<char>>, verbatim: bool) -> Seq<Seq<char>>
    decreases parts.len(),
{
    if parts.len() == 0 {
        Seq::empty()
    } else if parts.last().len() == 0 || parts.last() == "."@ && !verbatim {
        kept_parts(parts.drop_last(), verbatim)
    } else {
        kept_parts(parts.drop_last(), verbatim).push(parts.last())
    }
}

/// The last name of a path, if it does not end with the parent directory or with the
/// directory itself.
pub open spec fn last_name(path: Seq<char>, separator: char) -> Option<Seq<char>> {
    let c = components(path, separator);
    if c.len() == 0 || c.last() == ".."@ || c.last() == "."@ {
        None
    } else {
        Some(c.last())
    }
}

/// What follows the last full stop of a name, unless the name begins with it.
pub open spec fn name_extension(name: Seq<char>) -> Option<Seq<char>> {
    let i = text::last_of(name, '.');
    if i <= 0 {
        None
    } else {
        Some(name.skip(i + 1))
    }
}

/// The extension of the last name of a path.
pub open spec fn extension(path: Seq<char>, separator: char) -> Option<Seq<char>> {
    match last_name(path, separator) {
        Some(name) => name_extension(name),
        None => None,
    }
}

fn is_separator(c: char, separator: char, verbatim: bool) -> (r: bool)
    ensures
        r == separates(c, separator, verbatim),
{
    c == separator || c == '/' && !verbatim
}

/// How many characters stand from `from` on before the first separator.
fn length_of_run(v: &[char], from: usize, verbatim: bool) -> (r: usize)
    requires
        from <= v.len(),
    ensures
        r == run_length(v@.skip(from as int), verbatim),
        from + r <= v.len(),
{
    let mut i: usize = from;
    while i < v.len() && !is_separator(v[i], BACKSLASH, verbatim)
        invariant
            from <= i <= v.len(),
            run_length(v@.skip(from as int), verbatim) == i - from + run_length(
                v@.skip(i as int),
                verbatim,
            ),
        ensures
            from <= i <= v.len(),
            run_length(v@.skip(from as int), verbatim) == i - from,
        decreases v.len() - i,
    {
        assert(v@.skip(i as int).drop_first() =~= v@.skip(i + 1));
        i += 1;
    }
    i - from
}

/// The size of the name of a share behind the name of its server, both from `from` on.
fn length_of_shared(v: &[char], from: usize, verbatim: bool) -> (r: usize)
    requires
        from <= v.len(),
    ensures
        r == shared_length(v@.skip(from as int), verbatim),
        r > 0 ==> from + run_length(v@.skip(from as int), verbatim) + 1 + r <= v.len(),
{
    let server: usize = length_of_run(v, from, verbatim);
    if server < v.len() - from {
        assert(v@.skip(from as int).skip(server + 1) =~= v@.skip(from + server + 1));
        length_of_run(v, from + server + 1, verbatim)
    } else {
        0
    }
}

/// The size of the names of a server and of a share from `from` on.
fn length_of_share(v: &[char], from: usize, verbatim: bool) -> (r: usize)
    requires
        from <= v.len(),
    ensures
        r == share_length(v@.skip(from as int), verbatim),
        from + r <= v.len(),
{
    let server: usize = length_of_run(v, from, verbatim);
    let share: usize = length_of_shared(v, from, verbatim);
    if share > 0 {
        server + 1 + share
    } else {
        server
    }
}

/// Whether a drive stands at `from`.
fn drive_stands(v: &[char], from: usize) -> (r: bool)
    requires
        from <= v.len(),
    ensures
        r == has_drive(v@.skip(from as int)),
{
    v.len() - from >= 2 && v[from + 1] == ':' && ('a' <= v[from] && v[from] <= 'z' || 'A'
        <= v[from] && v[from] <= 'Z')
}

/// Whether a path is verbatim.
fn check_verbatim(v: &[char], separator: char) -> (r: bool)
    ensures
        r == is_verbatim(v@, separator),
{
    separator == BACKSLASH && v.len() >= 4 && v[0] == BACKSLASH && v[1] == BACKSLASH && v[2] == '?'
        && v[3] == BACKSLASH
}

/// The size of the prefix of a path.
fn length_of_prefix(v: &[char], separator: char) -> (r: usize)
    ensures
        r == prefix_length(v@, separator),
        r <= v.len(),
{
    if separator != BACKSLASH {
        return 0;
    }
    let n: usize = v.len();
    if check_verbatim(v, separator) {
        if n >= 8 && v[4] == 'U' && v[5] == 'N' && v[6] == 'C' && is_separator(
            v[7],
            BACKSLASH,
            false,
        ) {
            assert(v@.skip(4).skip(4) =~= v@.skip(8));
            8 + length_of_share(v, 8, true)
        } else if drive_stands(v, 4) && (n == 6 || is_separator(v[6], BACKSLASH, false)) {
            6
        } else {
            4 + length_of_run(v, 4, true)
        }
    } else if n >= 2 && is_separator(v[0], BACKSLASH, false) && is_separator(
        v[1],
        BACKSLASH,
        false,
    ) {
        if n >= 4 && v[2] == '.' && is_separator(v[3], BACKSLASH, false) {
            4 + length_of_run(v, 4, false)
        } else if length_of_run(v, 2, false) > 0 && length_of_shared(v, 2, false) > 0 {
            2 + length_of_share(v, 2, false)
        } else {
            0
        }
    } else {
        assert(v@.skip(0) =~= v@);
        if drive_stands(v, 0) {
            2
        } else {
            0
        }
    }
}

/// What stands between the separators of a path from `from` on.
fn split_path(v: &[char], from: usize, separator: char, verbatim: bool) -> (r: Vec<String>)
    requires
        from <= v.len(),
    ensures
        text::texts(r@) == parts_between(v@.skip(from as int), separator, verbatim),
{
    let ghost rest = v@.skip(from as int);
    let mut out: Vec<String> = Vec::new();
    let mut part = String::new();
    let mut i: usize = from;
    assert(text::texts(out@).push(part@) =~= parts_between(rest.take(0), separator, verbatim));
    while i < v.len()
        invariant
            from <= i <= v.len(),
            rest == v@.skip(from as int),
            text::texts(out@).push(part@) == parts_between(
                rest.take(i - from),
                separator,
                verbatim,
            ),
        decreases v.len() - i,
    {
        assert(rest.take(i - from + 1).drop_last() =~= rest.take(i - from));
        assert(rest.take(i - from + 1).last() == v@[i as int]);
        let ghost before = text::texts(out@).push(part@);
        if is_separator(v[i], separator, verbatim) {
            out.push(part);
            part = String::new();
            assert(text::texts(out@).push(part@) =~= before.push(Seq::empty()));
        } else {
            part.push(v[i]);
            assert(before.drop_last() =~= text::texts(out@));
        }
        i += 1;
    }
    assert(rest.take(i - from) =~= rest);
    let ghost done = text::texts(out@).push(part@);
    out.push(part);
    assert(text::texts(out@) =~= done);
    out
}

/// The components of a path.
pub fn path_components(path: &str, separator: char) -> (r: Vec<String>)
    ensures
        text::texts(r@) == components(path@, separator),
{
    let v = chars_of(path);
    let verbatim: bool = check_verbatim(&v, separator);
    let from: usize = length_of_prefix(&v, separator);
    let parts = split_path(&v, from, separator, verbatim);
    let ghost views = text::texts(parts@);
    let mut out: Vec<String> = Vec::new();
    let mut i: usize = 0;
    assert(text::texts(out@) =~= kept_parts(views.take(0), verbatim));
    while i < parts.len()
        invariant
            i <= parts.len(),
            views == text::texts(parts@),
            text::texts(out@) == kept_parts(views.take(i as int), verbatim),
        decreases parts.len() - i,
    {
        let ghost before = text::texts(out@);
        assert(views.take(i + 1).drop_last() =~= views.take(i as int));
        assert(views.take(i + 1).last() == parts@[i as int]@);
        if !parts[i].as_str().is_empty() && (verbatim || !same_text(parts[i].as_str(), ".")) {
            out.push(copy_text(parts[i].as_str()));
            assert(text::texts(out@) =~= before.push(parts@[i as int]@));
        }
        i += 1;
    }
    assert(views.take(i as int) =~= views);
    out
}

/// The last name of a path.
pub fn file_name(path: &str, separator: char) -> (r: Option<String>)
    ensures
        match r {
            Some(name) => last_name(path@, separator) == Some(name@),
            None => last_name(path@, separator) is None,
        },
{
    let parts = path_components(path, separator);
    let n: usize = parts.len();
    if n == 0 {
        return None;
    }
    assert(text::texts(parts@)[n - 1] == parts@[n - 1]@);
    if same_text(parts[n - 1].as_str(), "..") || same_text(parts[n - 1].as_str(), ".") {
        None
    } else {
        Some(copy_text(parts[n - 1].as_str()))
    }
}

/// A name below a directory, if the name has no root and no prefix of its own. The separator
/// is not doubled, and it is left out behind nothing and behind a drive that stands alone. A
/// verbatim directory is put together anew from its prefix and its components.
pub open spec fn path_below(dir: Seq<char>, separator: char, name: Seq<char>) -> Seq<char> {
    let n = prefix_length(dir, separator);
    if is_verbatim(dir, separator) {
        dir.take(n as int).push(separator) + text::joined(
            components(dir, separator).push(name),
            seq![separator],
        )
    } else if dir.len() == 0 || separates(dir.last(), separator, false) || separator == BACKSLASH
        && dir.len() == 2 && has_drive(dir) {
        dir + name
    } else {
        dir.push(separator) + name
    }
}

/// A name below a directory.
pub fn join_path(dir: &str, separator: char, name: &str) -> (r: String)
    ensures
        r@ == path_below(dir@, separator, name@),
{
    let v = chars_of(dir);
    let n: usize = v.len();
    if check_verbatim(&v, separator) {
        let from: usize = length_of_prefix(&v, separator);
        let mut parts = path_components(dir, separator);
        let ghost before = text::texts(parts@);
        parts.push(copy_text(name));
        assert(text::texts(parts@) =~= before.push(name@));
        let mut sep = String::new();
        sep.push(separator);
        assert(sep@ =~= seq![separator]);
        let mut out = slice_text(&v, 0, from);
        assert(out@ =~= dir@.take(from as int));
        out.push(separator);
        out.append(join(&parts, sep.as_str()).as_str());
        return out;
    }
    let mut out = copy_text(dir);
    assert(v@.skip(0) =~= v@);
    if n > 0 && !is_separator(v[n - 1], separator, false) && !(separator == BACKSLASH && n == 2
        && drive_stands(&v, 0)) {
        out.push(separator);
    }
    out.append(name);
    out
}

/// The extension of the last name of a path.
pub fn file_extension(path: &str, separator: char) -> (r: Option<String>)
    ensures
        match r {
            Some(e) => extension(path@, separator) == Some(e@),
            None => extension(path@, separator) is None,
        },
{
    match file_name(path, separator) {
        None => None,
        Some(name) => {
            let v = chars_of(name.as_str());
            proof {
                text::last_of_is_last(v@, '.');
            }
            match find_last(&v, '.') {
                Some(i) => {
                    if i == 0 {
                        None
                    } else {
                        assert(v@.subrange(i + 1, v@.len() as int) =~= name@.skip(i + 1));
                        Some(slice_text(&v, i + 1, v.len()))
                    }
                },
                None => None,
            }
        },
    }
}

/// Whether two texts are equal but for the case of ASCII letters.
pub fn same_ignoring_case(a: &str, b: &str) -> (r: bool)
    ensures
        r == (text::lowered(a@) == text::lowered(b@)),
{
    same_text(to_ascii_lowercase(a).as_str(), to_ascii_lowercase(b).as_str())
}

proof fn parts_of_tail(a: Seq<char>, b: Seq<char>, separator: char, verbatim: bool)
    requires
        forall|i: int| 0 <= i < b.len() ==> !separates(#[trigger] b[i], separator, verbatim),
    ensures
        parts_between(a, separator, verbatim).len() > 0,
        parts_between(a + b, separator, verbatim) == parts_between(
            a,
            separator,
            verbatim,
        ).drop_last().push(parts_between(a, separator, verbatim).last() + b),
    decreases a.len() + b.len(),
{
    if b.len() > 0 {
        let c = b.drop_last();
        assert forall|i: int| 0 <= i < c.len() implies !separates(
            #[trigger] c[i],
            separator,
            verbatim,
        ) by {
            assert(c[i] == b[i]);
        }
        parts_of_tail(a, c, separator, verbatim);
        assert((a + b).drop_last() =~= a + c);
        assert((a + b).last() == b[b.len() - 1]);
        let before = parts_between(a, separator, verbatim);
        assert(before.drop_last().push(before.last() + c).drop_last() =~= before.drop_last());
        assert((before.last() + c).push(b.last()) =~= before.last() + b);
    } else {
        assert(a + b =~= a);
        if a.len() > 0 {
            let e = Seq::<char>::empty();
            parts_of_tail(a.drop_last(), e, separator, verbatim);
        }
        let before = parts_between(a, separator, verbatim);
        assert(before.last() + b =~= before.last());
        assert(before.drop_last().push(before.last()) =~= before);
    }
}

/// A name: it is not empty, holds no separator, and stands neither for a directory itself nor
/// for its parent.
pub open spec fn plain_name(name: Seq<char>, separator: char) -> bool {
    &&& name.len() > 0
    &&& name != "."@
    &&& name != ".."@
    &&& forall|i: int| 0 <= i < name.len() ==> #[trigger] name[i] != separator && name[i] != '/'
}

proof fn name_comes_last(rest: Seq<char>, name: Seq<char>, mark: char, separator: char)
    requires
        plain_name(name, separator),
        mark == separator || mark == '/',
    ensures
        kept_parts(parts_between(rest + seq![mark] + name, separator, false), false).last() == name,
        kept_parts(parts_between(rest + seq![mark] + name, separator, false), false).len() > 0,
        kept_parts(parts_between(name, separator, false), false) == seq![name],
        kept_parts(parts_between(rest + seq![mark] + name + seq![mark], separator, false), false)
            == kept_parts(parts_between(rest + seq![mark] + name, separator, false), false),
{
    let a = rest + seq![mark];
    let e = Seq::<char>::empty();
    parts_of_tail(a, name, separator, false);
    parts_of_tail(e, name, separator, false);
    assert(e + name =~= name);
    assert(a.drop_last() =~= rest);
    assert(parts_between(e, separator, false) =~= seq![e]);
    assert(parts_between(name, separator, false) =~= seq![name]);
    let p = parts_between(a, separator, false);
    assert(p.last() == e);
    assert(e + name =~= name);
    let q = p.drop_last().push(name);
    assert(parts_between(a + name, separator, false) == q);
    assert(q.drop_last() =~= p.drop_last());
    assert(q.last() == name);
    let one = seq![name];
    assert(one.drop_last() =~= Seq::<Seq<char>>::empty());
    assert(one.last() == name);
    assert(kept_parts(one.drop_last(), false) =~= Seq::<Seq<char>>::empty());
    assert(kept_parts(one, false) =~= one);
    assert((a + name + seq![mark]).drop_last() =~= a + name);
    let r = q.push(e);
    assert(r.drop_last() =~= q);
    assert(r.last() == e);
}

/// The last name of a path is what stands behind its last separator, whatever stands before it
/// and even if another separator follows. Where the separator is a backslash a path may begin
/// with a drive.
pub proof fn last_name_stands_last(dir: Seq<char>, name: Seq<char>, drive: char)
    requires
        plain_name(name, BACKSLASH),
        'a' <= drive <= 'z' || 'A' <= drive <= 'Z',
    ensures
        last_name(name, '/') == Some(name),
        last_name(dir + seq!['/'] + name, '/') == Some(name),
        last_name(dir + seq!['/'] + name + seq!['/'], '/') == Some(name),
        last_name(seq![drive, ':'] + dir + seq![BACKSLASH] + name, BACKSLASH) == Some(name),
        last_name(seq![drive, ':'] + dir + seq!['/'] + name, BACKSLASH) == Some(name),
{
    name_comes_last(dir, name, '/', '/');
    name_comes_last(dir, name, BACKSLASH, BACKSLASH);
    name_comes_last(dir, name, '/', BACKSLASH);
    assert(name.skip(0) =~= name);
    let p = dir + seq!['/'] + name;
    assert(p.skip(0) =~= p);
    let q = p + seq!['/'];
    assert(q.skip(0) =~= q);
    assert(seq![name].last() == name);
    let w = seq![drive, ':'] + dir + seq![BACKSLASH] + name;
    assert(w.skip(2) =~= dir + seq![BACKSLASH] + name);
    assert(w[0] == drive && w[1] == ':');
    assert(prefix_length(w, BACKSLASH) == 2);
    let x = seq![drive, ':'] + dir + seq!['/'] + name;
    assert(x.skip(2) =~= dir + seq!['/'] + name);
    assert(x[0] == drive && x[1] == ':');
    assert(prefix_length(x, BACKSLASH) == 2);
}

/// The extension of a name is what follows its last full stop. A name without one has none, and
/// neither has a name that only begins with one.
pub proof fn extension_follows_the_last_stop(
    dir: Seq<char>,
    stem: Seq<char>,
    ending: Seq<char>,
)
    requires
        !ending.contains('.'),
        plain_name(stem + seq!['.'] + ending, BACKSLASH),
        plain_name(ending, BACKSLASH),
    ensures
        stem.len() > 0 ==> extension(dir + seq!['/'] + (stem + seq!['.'] + ending), '/') == Some(
            ending,
        ),
        stem.len() == 0 ==> extension(dir + seq!['/'] + (stem + seq!['.'] + ending), '/') is None,
        extension(dir + seq!['/'] + ending, '/') is None,
{
    last_name_stands_last(dir, stem + seq!['.'] + ending, 'c');
    last_name_stands_last(dir, ending, 'c');
    text::last_before(stem, ending, '.');
    text::last_of_is_last(ending, '.');
}

proof fn run_ends(a: Seq<char>, b: Seq<char>)
    requires
        forall|i: int| 0 <= i < a.len() ==> #[trigger] a[i] != BACKSLASH && a[i] != '/',
        b.len() == 0 || b[0] == BACKSLASH,
    ensures
        run_length(a + b, false) == a.len(),
    decreases a.len(),
{
    if a.len() > 0 {
        let rest = a.drop_first();
        assert forall|i: int| 0 <= i < rest.len() implies #[trigger] rest[i] != BACKSLASH && rest[i]
            != '/' by {
            assert(rest[i] == a[i + 1]);
        }
        run_ends(rest, b);
        assert((a + b).drop_first() =~= rest + b);
        assert((a + b)[0] == a[0]);
    } else {
        assert(a + b =~= b);
    }
}

/// The names of a server and of its share begin a path and are no names of files: a path that
/// ends with them has no last name.
pub proof fn share_is_no_file(server: Seq<char>, share: Seq<char>, dir: Seq<char>, name: Seq<char>)
    requires
        plain_name(server, BACKSLASH) && server != "?"@,
        plain_name(share, BACKSLASH),
        plain_name(name, BACKSLASH),
    ensures
        ({
            let start = seq![BACKSLASH, BACKSLASH] + server + seq![BACKSLASH] + share;
            &&& last_name(start, BACKSLASH) is None
            &&& last_name(start + (seq![BACKSLASH] + dir) + seq![BACKSLASH] + name, BACKSLASH)
                == Some(name)
        }),
{
    let e = Seq::<char>::empty();
    let tail = seq![BACKSLASH] + dir + seq![BACKSLASH] + name;
    let start = seq![BACKSLASH, BACKSLASH] + server + seq![BACKSLASH] + share;
    let whole = start + (seq![BACKSLASH] + dir) + seq![BACKSLASH] + name;
    begins_with_share(server, share, e);
    begins_with_share(server, share, tail);
    assert(start + e =~= start);
    assert(start + tail =~= whole);
    assert(start.skip(start.len() as int) =~= e);
    assert(whole.skip(start.len() as int) =~= tail);
    assert(parts_between(e, BACKSLASH, false) =~= seq![e]);
    let one = seq![e];
    assert(one.last() == e);
    assert(one.drop_last() =~= Seq::<Seq<char>>::empty());
    assert(kept_parts(one, false) =~= kept_parts(one.drop_last(), false));
    assert(kept_parts(one.drop_last(), false) =~= Seq::<Seq<char>>::empty());
    name_comes_last(seq![BACKSLASH] + dir, name, BACKSLASH, BACKSLASH);
}

proof fn begins_with_share(server: Seq<char>, share: Seq<char>, tail: Seq<char>)
    requires
        plain_name(server, BACKSLASH) && server != "?"@,
        plain_name(share, BACKSLASH),
        tail.len() == 0 || tail[0] == BACKSLASH,
    ensures
        ({
            let start = seq![BACKSLASH, BACKSLASH] + server + seq![BACKSLASH] + share;
            &&& prefix_length(start + tail, BACKSLASH) == start.len()
            &&& !is_verbatim(start + tail, BACKSLASH)
        }),
{
    let start = seq![BACKSLASH, BACKSLASH] + server + seq![BACKSLASH] + share;
    let whole = start + tail;
    let rest = whole.skip(2);
    let behind = seq![BACKSLASH] + share + tail;
    assert(rest =~= server + behind);
    run_ends(server, behind);
    assert(rest.skip(server.len() as int + 1) =~= share + tail);
    run_ends(share, tail);
    assert(whole[0] == BACKSLASH && whole[1] == BACKSLASH && whole[2] == server[0]);
    reveal_strlit("?");
    reveal_strlit(".");
    if server.len() == 1 {
        assert(server =~= seq![server[0]]);
        assert(server[0] != '?') by {
            if server[0] == '?' {
                assert(server =~= "?"@);
            }
        }
        assert(server[0] != '.') by {
            if server[0] == '.' {
                assert(server =~= "."@);
            }
        }
    } else {
        assert(whole[3] == server[1]);
    }
}

} // verus!
