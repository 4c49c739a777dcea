//! Paths with `/` between their components.
//!
//! A path is read from the back. Empty components and components `.` count for nothing, but for
//! a `.` at the very beginning of a relative path.

use vstd::prelude::*;
use crate::text::{chars_of, string_of};

verus! {

/// The position at which the components of a path begin: behind the root, or behind a `.` that
/// the path begins with.
pub open spec fn body_start(p: Seq<char>) -> int {
    if p.len() > 0 && p[0] == '/' {
        1
    } else if p.len() > 0 && p[0] == '.' && (p.len() == 1 || p[1] == '/') {
        1
    } else {
        0
    }
}

/// The position of the last `/` in `p` from `from` up to `to`, or `from - 1` where there is none.
pub open spec fn last_slash(p: Seq<char>, from: int, to: int) -> int
    decreases to - from,
{
    if to <= from {
        from - 1
    } else if p[to - 1] == '/' {
        to - 1
    } else {
        last_slash(p, from, to - 1)
    }
}

/// Where the part before the last component of `p`, from `from` up to `to`, ends.
pub open spec fn cut_before_last(p: Seq<char>, from: int, to: int) -> int {
    let slash = last_slash(p, from, to);
    if slash >= from {
        slash
    } else {
        from
    }
}

/// Where `p`, from `from` up to `to`, ends once the components at its end that count for nothing
/// are left out.
pub open spec fn significant_end(p: Seq<char>, from: int, to: int) -> int
    decreases to - from,
    when 0 <= from
    via significant_end_decreases
{
    if to <= from {
        to
    } else {
        let start = last_slash(p, from, to) + 1;
        if start == to || (start + 1 == to && p[start] == '.') {
            significant_end(p, from, cut_before_last(p, from, to))
        } else {
            to
        }
    }
}

#[via_fn]
proof fn significant_end_decreases(p: Seq<char>, from: int, to: int) {
    if to > from {
        lemma_last_slash_bounds(p, from, to);
    }
}

proof fn lemma_last_slash_bounds(p: Seq<char>, from: int, to: int)
    requires
        from <= to,
    ensures
        from - 1 <= last_slash(p, from, to) < to,
    decreases to - from,
{
    if to > from && p[to - 1] != '/' {
        lemma_last_slash_bounds(p, from, to - 1);
    }
}

/// The last component of a path, where it is a name.
pub open spec fn file_name_of(p: Seq<char>) -> Option<Seq<char>> {
    let from = body_start(p);
    let end = significant_end(p, from, p.len() as int);
    if end <= from {
        None
    } else {
        let name = p.subrange(last_slash(p, from, end) + 1, end);
        if name == seq!['.', '.'] {
            None
        } else {
            Some(name)
        }
    }
}

/// The path without its last component.
pub open spec fn parent_of(p: Seq<char>) -> Option<Seq<char>> {
    let from = body_start(p);
    let end = significant_end(p, from, p.len() as int);
    if end > from {
        Some(p.subrange(0, significant_end(p, from, cut_before_last(p, from, end))))
    } else if p.len() == 0 || p[0] == '/' {
        None
    } else {
        Some(Seq::empty())
    }
}

/// The position of the last `.` in `s` up to `to`, or -1.
pub open spec fn last_dot(s: Seq<char>, to: int) -> int
    decreases to,
{
    if to <= 0 {
        -1
    } else if s[to - 1] == '.' {
        to - 1
    } else {
        last_dot(s, to - 1)
    }
}

/// A file name without its extension. A name that begins with its only `.` has no extension.
pub open spec fn stem_of(name: Seq<char>) -> Seq<char> {
    let dot = last_dot(name, name.len() as int);
    if dot <= 0 {
        name
    } else {
        name.subrange(0, dot)
    }
}

/// The extension of a file name, without its `.`.
pub open spec fn extension_of(name: Seq<char>) -> Option<Seq<char>> {
    let dot = last_dot(name, name.len() as int);
    if dot <= 0 {
        None
    } else {
        Some(name.subrange(dot + 1, name.len() as int))
    }
}

/// The position of the last `/` from `from` up to `to`, and whether there is one.
pub fn find_last_slash(chars: &Vec<char>, from: usize, to: usize) -> (res: Option<usize>)
    requires
        from <= to <= chars@.len(),
    ensures
        match res {
            Some(i) => from <= i < to && last_slash(chars@, from as int, to as int) == i,
            None => last_slash(chars@, from as int, to as int) == from - 1,
        },
{
    let mut i: usize = to;
    while i > from
        invariant
            from <= i <= to <= chars@.len(),
            last_slash(chars@, from as int, to as int) == last_slash(chars@, from as int, i as int),
        decreases i,
    {
        if chars[i - 1] == '/' {
            return Some(i - 1);
        }
        i = i - 1;
    }
    None
}

/// Where the part before the last component ends.
fn find_cut(chars: &Vec<char>, from: usize, to: usize) -> (res: usize)
    requires
        from <= to <= chars@.len(),
    ensures
        res == cut_before_last(chars@, from as int, to as int),
        from <= res <= to,
{
    match find_last_slash(chars, from, to) {
        Some(i) => i,
        None => from,
    }
}

/// Where the path ends once the components at its end that count for nothing are left out.
fn find_end(chars: &Vec<char>, from: usize, to: usize) -> (res: usize)
    requires
        from <= to <= chars@.len(),
    ensures
        res == significant_end(chars@, from as int, to as int),
        from <= res <= to,
{
    let mut end: usize = to;
    while end > from
        invariant
            from <= end <= to <= chars@.len(),
            significant_end(chars@, from as int, to as int) == significant_end(
                chars@,
                from as int,
                end as int,
            ),
        decreases end,
    {
        let start: usize = match find_last_slash(chars, from, end) {
            Some(i) => i + 1,
            None => from,
        };
        if start == end || (start + 1 == end && chars[start] == '.') {
            end = find_cut(chars, from, end);
        } else {
            return end;
        }
    }
    end
}

/// The position at which the components begin.
fn find_body(chars: &Vec<char>) -> (res: usize)
    ensures
        res == body_start(chars@),
        res <= chars@.len(),
{
    let n: usize = chars.len();
    if n > 0 && chars[0] == '/' {
        1
    } else if n > 0 && chars[0] == '.' && (n == 1 || chars[1] == '/') {
        1
    } else {
        0
    }
}

/// The last component of a path, where it is a name.
pub fn file_name(path: &str) -> (res: Option<String>)
    ensures
        match res {
            Some(name) => file_name_of(path@) == Some(name@),
            None => file_name_of(path@) is None,
        },
{
    let chars = chars_of(path);
    let from: usize = find_body(&chars);
    let end: usize = find_end(&chars, from, chars.len());
    if end <= from {
        return None;
    }
    let start: usize = match find_last_slash(&chars, from, end) {
        Some(i) => i + 1,
        None => from,
    };
    let ghost name = chars@.subrange(start as int, end as int);
    if end - start == 2 && chars[start] == '.' && chars[start + 1] == '.' {
        assert(name =~= seq!['.', '.']);
        return None;
    }
    proof {
        if name == seq!['.', '.'] {
            assert(name.len() == 2 && name[0] == '.' && name[1] == '.');
        }
    }
    Some(string_of(&chars, start, end))
}

/// The path without its last component.
pub fn parent(path: &str) -> (res: Option<String>)
    ensures
        match res {
            Some(dir) => parent_of(path@) == Some(dir@),
            None => parent_of(path@) is None,
        },
{
    let chars = chars_of(path);
    let n: usize = chars.len();
    let from: usize = find_body(&chars);
    let end: usize = find_end(&chars, from, n);
    if end > from {
        let cut: usize = find_cut(&chars, from, end);
        let upto: usize = find_end(&chars, from, cut);
        Some(string_of(&chars, 0, upto))
    } else if n == 0 || chars[0] == '/' {
        None
    } else {
        Some(String::new())
    }
}

/// The position of the last `.`, where it is not the first character.
fn find_extension_dot(chars: &Vec<char>) -> (res: Option<usize>)
    ensures
        match res {
            Some(i) => 0 < i < chars@.len() && last_dot(chars@, chars@.len() as int) == i,
            None => last_dot(chars@, chars@.len() as int) <= 0,
        },
{
    let mut i: usize = chars.len();
    while i > 0
        invariant
            i <= chars@.len(),
            last_dot(chars@, chars@.len() as int) == last_dot(chars@, i as int),
        decreases i,
    {
        if chars[i - 1] == '.' {
            if i == 1 {
                return None;
            }
            return Some(i - 1);
        }
        i = i - 1;
    }
    None
}

/// A file name without its extension.
pub fn file_stem(name: &str) -> (res: String)
    ensures
        res@ == stem_of(name@),
{
    let chars = chars_of(name);
    match find_extension_dot(&chars) {
        Some(i) => string_of(&chars, 0, i),
        None => {
            assert(chars@.subrange(0, chars@.len() as int) == chars@);
            string_of(&chars, 0, chars.len())
        },
    }
}

/// The extension of a file name.
pub fn extension(name: &str) -> (res: Option<String>)
    ensures
        match res {
            Some(ext) => extension_of(name@) == Some(ext@),
            None => extension_of(name@) is None,
        },
{
    let chars = chars_of(name);
    let n: usize = chars.len();
    match find_extension_dot(&chars) {
        Some(i) => Some(string_of(&chars, i + 1, n)),
        None => None,
    }
}

/// Where a `/` stands and none follows, that is the last.
pub proof fn lemma_last_slash_at(p: Seq<char>, from: int, to: int, at: int)
    requires
        from <= at < to,
        p[at] == '/',
        forall|i: int| at < i < to ==> p[i] != '/',
    ensures
        last_slash(p, from, to) == at,
    decreases to - from,
{
    if at + 1 < to {
        lemma_last_slash_at(p, from, to - 1, at);
    }
}

/// The file name of a path is what stands behind its last `/`, where that is a name.
pub proof fn law_file_name(dir: Seq<char>, name: Seq<char>)
    requires
        name.len() > 0,
        !name.contains('/'),
        name != seq!['.'],
        name != seq!['.', '.'],
    ensures
        file_name_of(dir + seq!['/'] + name) == Some(name),
{
    let p = dir + seq!['/'] + name;
    let n = p.len() as int;
    let at = dir.len() as int;
    let from = body_start(p);
    assert(p[at] == '/');
    assert forall|i: int| at < i < n implies p[i] != '/' by {
        assert(p[i] == name[i - at - 1]);
        assert(name.contains(name[i - at - 1]));
    }
    lemma_last_component(p, from, at);
    assert(p.subrange(at + 1, n) =~= name);
    if name.len() == 1 {
        assert(p[at + 1] == name[0]);
        if name[0] == '.' {
            assert(name =~= seq!['.']);
        }
    }
}

proof fn lemma_last_component(p: Seq<char>, from: int, at: int)
    requires
        from == body_start(p),
        0 <= at < p.len() - 1,
        p[at] == '/',
        forall|i: int| at < i < p.len() ==> p[i] != '/',
    ensures
        last_slash(p, from, p.len() as int) == at,
        from <= at + 1,
{
    if at >= from {
        lemma_last_slash_at(p, from, p.len() as int, at);
    } else {
        assert(from == 1 && at == 0);
        lemma_no_slash(p, 1, p.len() as int);
    }
}

proof fn lemma_no_slash(p: Seq<char>, from: int, to: int)
    requires
        0 <= from <= to <= p.len(),
        forall|i: int| from <= i < to ==> p[i] != '/',
    ensures
        last_slash(p, from, to) == from - 1,
    decreases to - from,
{
    if to > from {
        lemma_no_slash(p, from, to - 1);
    }
}

/// A path without a `/` is its own file name.
pub proof fn law_bare_file_name(name: Seq<char>)
    requires
        name.len() > 0,
        !name.contains('/'),
        name != seq!['.'],
        name != seq!['.', '.'],
    ensures
        file_name_of(name) == Some(name),
        parent_of(name) == Some(Seq::<char>::empty()),
{
    assert forall|i: int| 0 <= i < name.len() implies name[i] != '/' by {
        assert(name.contains(name[i]));
    }
    if name.len() == 1 && name[0] == '.' {
        assert(name =~= seq!['.']);
    }
    let n = name.len() as int;
    assert(body_start(name) == 0);
    lemma_no_slash(name, 0, n);
    assert(significant_end(name, 0, n) == n);
    assert(name.subrange(0, n) =~= name);
    assert(cut_before_last(name, 0, n) == 0);
    assert(significant_end(name, 0, 0) == 0);
    assert(name.subrange(0, 0) =~= Seq::<char>::empty());
}

/// The directory of a path is what stands before its last `/`, where that ends in a name.
pub proof fn law_parent(dir: Seq<char>, name: Seq<char>)
    requires
        name.len() > 0,
        !name.contains('/'),
        name != seq!['.'],
        dir.len() > 0,
        dir.last() != '/',
        dir.last() != '.',
    ensures
        parent_of(dir + seq!['/'] + name) == Some(dir),
{
    let p = dir + seq!['/'] + name;
    let n = p.len() as int;
    let at = dir.len() as int;
    let from = body_start(p);
    assert(p[at] == '/');
    assert(p[at - 1] == dir.last());
    assert forall|i: int| at < i < n implies p[i] != '/' by {
        assert(p[i] == name[i - at - 1]);
        assert(name.contains(name[i - at - 1]));
    }
    lemma_last_component(p, from, at);
    if name.len() == 1 {
        assert(p[at + 1] == name[0]);
        if name[0] == '.' {
            assert(name =~= seq!['.']);
        }
    }
    assert(significant_end(p, from, n) == n);
    assert(from <= at);
    assert(cut_before_last(p, from, n) == at);
    lemma_last_slash_bounds(p, from, at);
    if from == at {
        assert(at == 1);
        assert(p[0] == dir.last());
    }
    let start = last_slash(p, from, at) + 1;
    assert(start < at) by {
        if start == at {
            lemma_slash_there(p, from, at);
        }
    }
    assert(significant_end(p, from, at) == at);
    assert(p.subrange(0, at) =~= dir);
}

proof fn lemma_slash_there(p: Seq<char>, from: int, to: int)
    requires
        0 <= from < to <= p.len(),
        last_slash(p, from, to) == to - 1,
    ensures
        p[to - 1] == '/',
{
    if p[to - 1] != '/' {
        lemma_last_slash_bounds(p, from, to - 1);
    }
}

/// A file name is its stem, a `.` and its extension, where the extension has no `.`.
pub proof fn law_stem_and_extension(stem: Seq<char>, ext: Seq<char>)
    requires
        stem.len() > 0,
        !ext.contains('.'),
    ensures
        stem_of(stem + seq!['.'] + ext) == stem,
        extension_of(stem + seq!['.'] + ext) == Some(ext),
{
    let name = stem + seq!['.'] + ext;
    let at = stem.len() as int;
    assert(name[at] == '.');
    assert forall|i: int| at < i < name.len() implies name[i] != '.' by {
        assert(name[i] == ext[i - at - 1]);
        assert(ext.contains(ext[i - at - 1]));
    }
    lemma_last_dot_at(name, name.len() as int, at);
    assert(name.subrange(0, at) =~= stem);
    assert(name.subrange(at + 1, name.len() as int) =~= ext);
}

/// A file name without a `.` is its own stem, and has no extension.
pub proof fn law_no_extension(name: Seq<char>)
    requires
        !name.contains('.'),
    ensures
        stem_of(name) == name,
        extension_of(name) is None,
{
    assert forall|i: int| 0 <= i < name.len() implies name[i] != '.' by {
        assert(name.contains(name[i]));
    }
    lemma_no_dot(name, name.len() as int);
}

proof fn lemma_no_dot(s: Seq<char>, to: int)
    requires
        0 <= to <= s.len(),
        forall|i: int| 0 <= i < to ==> s[i] != '.',
    ensures
        last_dot(s, to) == -1,
    decreases to,
{
    if to > 0 {
        lemma_no_dot(s, to - 1);
    }
}

proof fn lemma_last_dot_at(s: Seq<char>, to: int, at: int)
    requires
        0 <= at < to <= s.len(),
        s[at] == '.',
        forall|i: int| at < i < to ==> s[i] != '.',
    ensures
        last_dot(s, to) == at,
    decreases to,
{
    if at + 1 < to {
        lemma_last_dot_at(s, to - 1, at);
    }
}

/// A file name that begins with its only `.` is its own stem, and has no extension.
pub proof fn law_hidden_file(rest: Seq<char>)
    requires
        !rest.contains('.'),
    ensures
        stem_of(seq!['.'] + rest) == seq!['.'] + rest,
        extension_of(seq!['.'] + rest) is None,
{
    let name = seq!['.'] + rest;
    assert forall|i: int| 0 < i < name.len() implies name[i] != '.' by {
        assert(name[i] == rest[i - 1]);
        assert(rest.contains(rest[i - 1]));
    }
    lemma_last_dot_at(name, name.len() as int, 0);
}

/// The parts of a path, as they are read from it.
pub proof fn law_path_calls(
    path: &str,
    dir: Seq<char>,
    name: Seq<char>,
    directory: Option<String>,
    file: Option<String>,
)
    requires
        call_ensures(parent, (path,), directory),
        call_ensures(file_name, (path,), file),
        path@ == dir + seq!['/'] + name,
        name.len() > 0,
        !name.contains('/'),
        name != seq!['.'],
        name != seq!['.', '.'],
        dir.len() > 0,
        dir.last() != '/',
        dir.last() != '.',
    ensures
        directory matches Some(d) && d@ == dir,
        file matches Some(f) && f@ == name,
{
    law_parent(dir, name);
    law_file_name(dir, name);
}

} // verus!
