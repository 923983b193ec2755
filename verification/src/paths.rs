//! File paths as text.
//!
//! A path is a text whose components are separated by slashes. Slashes that repeat or stand at the
//! end, and dots that stand for the folder they are in, name nothing: the functions here read past
//! them, and two texts that differ in nothing else have the same plain form. A drive is a first
//! component like any other.

use crate::text::{
    after_last, chars_to_string, concat2, concat3, opt_text, position_after_last, same_text, texts,
    to_chars,
};
use vstd::prelude::*;

verus! {

/// The path without the slashes, and the dots behind a slash, at its end; the root stays.
pub open spec fn trimmed(p: Seq<char>) -> Seq<char>
    decreases p.len(),
{
    if p.len() > 1 && (p.last() == '/' || (p.last() == '.' && p[p.len() - 2] == '/')) {
        trimmed(p.drop_last())
    } else {
        p
    }
}

/// What a path names last: the text after the last slash, once the end is trimmed.
pub open spec fn last_component(p: Seq<char>) -> Seq<char> {
    trimmed(p).skip(after_last(trimmed(p), '/') as int)
}

/// The last component, where it names a file.
pub open spec fn file_name(p: Seq<char>) -> Option<Seq<char>> {
    let name = last_component(p);
    if name.len() == 0 || name == "."@ || name == ".."@ {
        None
    } else {
        Some(name)
    }
}

/// Where the extension of a name starts, past its dot; 0 when there is none.
///
/// A dot at the start of a name does not start an extension.
pub open spec fn extension_start(name: Seq<char>) -> nat {
    let k = after_last(name, '.');
    if k <= 1 {
        0
    } else {
        k
    }
}

/// A file name without its extension.
pub open spec fn name_stem(name: Seq<char>) -> Seq<char> {
    let k = extension_start(name);
    if k == 0 {
        name
    } else {
        name.take(k - 1)
    }
}

pub open spec fn name_extension(name: Seq<char>) -> Option<Seq<char>> {
    let k = extension_start(name);
    if k == 0 {
        None
    } else {
        Some(name.skip(k as int))
    }
}

/// The stem of the file that a path names.
pub open spec fn file_stem(p: Seq<char>) -> Option<Seq<char>> {
    match file_name(p) {
        Some(name) => Some(name_stem(name)),
        None => None,
    }
}

/// The extension of the file that a path names.
pub open spec fn extension(p: Seq<char>) -> Option<Seq<char>> {
    match file_name(p) {
        Some(name) => name_extension(name),
        None => None,
    }
}

/// The path without its last component.
pub open spec fn parent(p: Seq<char>) -> Option<Seq<char>> {
    let q = trimmed(p);
    if q.len() == 0 || q == "/"@ {
        None
    } else {
        Some(trimmed(q.take(after_last(q, '/') as int)))
    }
}

/// A path below another; an absolute path replaces the base.
pub open spec fn joined(base: Seq<char>, p: Seq<char>) -> Seq<char> {
    if base.len() == 0 || (p.len() > 0 && p[0] == '/') {
        p
    } else if base.last() == '/' {
        base + p
    } else {
        base + "/"@ + p
    }
}

/// The path with its file name replaced, or with a name added where it has none.
pub open spec fn with_name(p: Seq<char>, name: Seq<char>) -> Seq<char> {
    if file_name(p) is Some && parent(p) is Some {
        joined(parent(p)->0, name)
    } else {
        joined(p, name)
    }
}

/// The path with the extension of its file replaced, added or, for an empty one, taken away.
pub open spec fn with_ext(p: Seq<char>, ext: Seq<char>) -> Seq<char> {
    match file_name(p) {
        Some(name) => {
            let bare = trimmed(p).take(after_last(trimmed(p), '/') as int) + name_stem(name);
            if ext.len() == 0 {
                bare
            } else {
                bare + "."@ + ext
            }
        },
        None => p,
    }
}

/// A name that a folder can list: not empty, no slash in it, and not the folder itself.
pub open spec fn is_plain_name(name: Seq<char>) -> bool {
    name.len() > 0 && !name.contains('/') && name != "."@
}

/// The path with single slashes, none at its end, and no dots that name nothing.
pub open spec fn plain(p: Seq<char>) -> Seq<char>
    decreases p.len(),
    via parent_is_shorter
{
    match parent(p) {
        Some(folder) => joined(plain(folder), last_component(p)),
        None => trimmed(p),
    }
}

#[via_fn]
proof fn parent_is_shorter(p: Seq<char>) {
    lemma_parent_is_shorter(p);
}

/// The plain forms of a list of paths.
pub open spec fn plains(paths: Seq<Seq<char>>) -> Seq<Seq<char>> {
    paths.map_values(|p: Seq<char>| plain(p))
}

/// Some path of a list is this path.
pub open spec fn has_path(paths: Seq<Seq<char>>, p: Seq<char>) -> bool {
    plains(paths).contains(plain(p))
}

/// There is a path, and it is this one.
pub open spec fn is_path(o: Option<Seq<char>>, p: Seq<char>) -> bool {
    o matches Some(q) && plain(q) == plain(p)
}

/// No path of a list is there twice.
pub open spec fn paths_differ(paths: Seq<Seq<char>>) -> bool {
    plains(paths).no_duplicates()
}

fn trimmed_length(chars: &Vec<char>) -> (r: usize)
    ensures
        r <= chars@.len(),
        trimmed(chars@) == chars@.take(r as int),
{
    let mut n: usize = chars.len();
    assert(chars@.take(n as int) =~= chars@);
    while n > 1 && (chars[n - 1] == '/' || (chars[n - 1] == '.' && chars[n - 2] == '/'))
        invariant
            n <= chars@.len(),
            trimmed(chars@) == trimmed(chars@.take(n as int)),
        decreases n,
    {
        assert(chars@.take(n as int).drop_last() =~= chars@.take(n - 1));
        n = n - 1;
    }
    n
}

/// The path without the slashes, and the dots behind a slash, at its end.
pub fn path_trimmed(p: &str) -> (r: String)
    ensures
        r@ == trimmed(p@),
{
    let chars = to_chars(p);
    let n: usize = trimmed_length(&chars);
    chars_to_string(&chars, 0, n)
}

/// The last thing that a path names: a file, a folder, the folder itself or the one above.
pub fn path_last_component(p: &str) -> (r: String)
    ensures
        r@ == last_component(p@),
{
    let chars = to_chars(path_trimmed(p).as_str());
    let start: usize = position_after_last(&chars, '/');
    let r = chars_to_string(&chars, start, chars.len());
    assert(r@ =~= last_component(p@));
    r
}

/// The last component of a path, where it names a file.
pub fn path_file_name(p: &str) -> (r: Option<String>)
    ensures
        opt_text(r) == file_name(p@),
{
    let name = path_last_component(p);
    if same_text(name.as_str(), "") || same_text(name.as_str(), ".") || same_text(
        name.as_str(),
        "..",
    ) {
        proof {
            reveal_strlit("");
            assert(name@ == ""@ ==> name@.len() == 0);
        }
        None
    } else {
        proof {
            reveal_strlit("");
            assert(name@.len() == 0 ==> name@ =~= ""@);
        }
        Some(name)
    }
}

fn extension_position(chars: &Vec<char>) -> (r: usize)
    ensures
        r == extension_start(chars@),
        r <= chars@.len(),
{
    let k: usize = position_after_last(chars, '.');
    if k <= 1 {
        0
    } else {
        k
    }
}

/// The stem of the file that a path names.
pub fn path_file_stem(p: &str) -> (r: Option<String>)
    ensures
        opt_text(r) == file_stem(p@),
{
    match path_file_name(p) {
        Some(name) => Some(stem_of_name(name.as_str())),
        None => None,
    }
}

/// A file name without its extension.
pub fn stem_of_name(name: &str) -> (r: String)
    ensures
        r@ == name_stem(name@),
{
    let chars = to_chars(name);
    let k: usize = extension_position(&chars);
    if k == 0 {
        name.to_owned()
    } else {
        chars_to_string(&chars, 0, k - 1)
    }
}

/// The extension of a file name.
pub fn extension_of_name(name: &str) -> (r: Option<String>)
    ensures
        opt_text(r) == name_extension(name@),
{
    let chars = to_chars(name);
    let k: usize = extension_position(&chars);
    if k == 0 {
        None
    } else {
        let r = chars_to_string(&chars, k, chars.len());
        assert(r@ =~= name@.skip(k as int));
        Some(r)
    }
}

/// The extension of the file that a path names.
pub fn path_extension(p: &str) -> (r: Option<String>)
    ensures
        opt_text(r) == extension(p@),
{
    match path_file_name(p) {
        Some(name) => extension_of_name(name.as_str()),
        None => None,
    }
}

/// The path without its last component.
pub fn path_parent(p: &str) -> (r: Option<String>)
    ensures
        opt_text(r) == parent(p@),
{
    let whole = path_trimmed(p);
    let chars = to_chars(whole.as_str());
    if chars.len() == 0 || same_text(whole.as_str(), "/") {
        None
    } else {
        let k: usize = position_after_last(&chars, '/');
        let head = chars_to_string(&chars, 0, k);
        assert(head@ =~= trimmed(p@).take(k as int));
        Some(path_trimmed(head.as_str()))
    }
}

/// A path below another; an absolute path replaces the base.
pub fn path_join(base: &str, p: &str) -> (r: String)
    ensures
        r@ == joined(base@, p@),
{
    let head = to_chars(base);
    let tail = to_chars(p);
    if head.len() == 0 || (tail.len() > 0 && tail[0] == '/') {
        p.to_owned()
    } else if head[head.len() - 1] == '/' {
        concat2(base, p)
    } else {
        concat3(base, "/", p)
    }
}

/// The path with its file name replaced.
pub fn path_with_name(p: &str, name: &str) -> (r: String)
    ensures
        r@ == with_name(p@, name@),
{
    match (path_file_name(p), path_parent(p)) {
        (Some(_), Some(folder)) => path_join(folder.as_str(), name),
        _ => path_join(p, name),
    }
}

/// The path with the extension of its file replaced, added or, for an empty one, taken away.
pub fn path_with_extension(p: &str, ext: &str) -> (r: String)
    ensures
        r@ == with_ext(p@, ext@),
{
    match path_file_name(p) {
        Some(name) => {
            let chars = to_chars(path_trimmed(p).as_str());
            let k: usize = position_after_last(&chars, '/');
            let head = chars_to_string(&chars, 0, k);
            let stem = stem_of_name(name.as_str());
            let bare = concat2(head.as_str(), stem.as_str());
            if to_chars(ext).len() == 0 {
                bare
            } else {
                concat3(bare.as_str(), ".", ext)
            }
        },
        None => p.to_owned(),
    }
}

/// The slash at a place separates two names.
pub open spec fn separates(p: Seq<char>, i: int) -> bool {
    i + 1 < p.len() && p[i + 1] != '/' && (p[i + 1] == '.' ==> i + 2 < p.len() && p[i + 2] != '/')
}

/// Every slash separates two names, or is the root.
pub open spec fn is_plain(p: Seq<char>) -> bool {
    p == "/"@ || forall|i: int| 0 <= i < p.len() && #[trigger] p[i] == '/' ==> separates(p, i)
}

fn is_plain_text(chars: &Vec<char>) -> (r: bool)
    ensures
        r ==> is_plain(chars@),
{
    let n: usize = chars.len();
    let mut i: usize = 0;
    while i < n
        invariant
            i <= n,
            n == chars@.len(),
            forall|j: int| 0 <= j < i && #[trigger] chars@[j] == '/' ==> separates(chars@, j),
        decreases n - i,
    {
        if chars[i] == '/' {
            let rest: usize = n - i;
            if rest < 2 || chars[i + 1] == '/' {
                return false;
            }
            if chars[i + 1] == '.' && (rest < 3 || chars[i + 2] == '/') {
                return false;
            }
        }
        i = i + 1;
    }
    true
}

/// The path with single slashes, none at its end, and no dots that name nothing.
pub fn plain_path(p: &str) -> (r: String)
    ensures
        r@ == plain(p@),
    decreases p@.len(),
{
    if is_plain_text(&to_chars(p)) {
        proof {
            law_plain_paths_stay(p@);
        }
        return p.to_owned();
    }
    match path_parent(p) {
        Some(folder) => {
            proof {
                lemma_parent_is_shorter(p@);
            }
            let above = plain_path(folder.as_str());
            path_join(above.as_str(), path_last_component(p).as_str())
        },
        None => path_trimmed(p),
    }
}

/// The plain forms of a list of paths.
pub fn plain_paths(paths: &Vec<String>) -> (r: Vec<String>)
    ensures
        texts(r@) == plains(texts(paths@)),
{
    let mut r: Vec<String> = Vec::new();
    let mut i: usize = 0;
    while i < paths.len()
        invariant
            i <= paths@.len(),
            r@.len() == i,
            texts(r@) == plains(texts(paths@)).take(i as int),
        decreases paths@.len() - i,
    {
        r.push(plain_path(paths[i].as_str()));
        assert(texts(r@) =~= plains(texts(paths@)).take(i + 1));
        i = i + 1;
    }
    assert(texts(r@) =~= plains(texts(paths@)));
    r
}

/// Both texts are the same path: they differ at most in slashes and dots that name nothing.
pub fn same_path(a: &str, b: &str) -> (r: bool)
    ensures
        r == (plain(a@) == plain(b@)),
{
    same_text(plain_path(a).as_str(), plain_path(b).as_str())
}

/// Whether some path of a list is this path.
pub fn list_has_path(list: &Vec<String>, p: &str) -> (r: bool)
    ensures
        r == has_path(texts(list@), p@),
{
    let wanted = plain_path(p);
    let ghost all = plains(texts(list@));
    let mut i: usize = 0;
    while i < list.len()
        invariant
            i <= list@.len(),
            all == plains(texts(list@)),
            wanted@ == plain(p@),
            forall|k: int| 0 <= k < i ==> all[k] != wanted@,
        decreases list@.len() - i,
    {
        assert(all[i as int] == plain(list@[i as int]@));
        if same_text(plain_path(list[i].as_str()).as_str(), wanted.as_str()) {
            return true;
        }
        i = i + 1;
    }
    assert(all.len() == list@.len());
    false
}

/// A path of a joined list is a path of one of its parts.
pub proof fn lemma_has_path_concat(a: Seq<Seq<char>>, b: Seq<Seq<char>>, p: Seq<char>)
    ensures
        has_path(a + b, p) <==> has_path(a, p) || has_path(b, p),
{
    let q = plain(p);
    let all = plains(a + b);
    if plains(a).contains(q) {
        let i = choose|i: int| 0 <= i < plains(a).len() && plains(a)[i] == q;
        assert(all[i] == q);
    }
    if plains(b).contains(q) {
        let i = choose|i: int| 0 <= i < plains(b).len() && plains(b)[i] == q;
        assert(all[a.len() + i] == q);
    }
    if all.contains(q) {
        let i = choose|i: int| 0 <= i < all.len() && all[i] == q;
        if i < a.len() {
            assert(plains(a)[i] == q);
        } else {
            assert(plains(b)[i - a.len()] == q);
        }
    }
}

/// A list has the path of each of its items.
pub proof fn lemma_has_its_paths(paths: Seq<Seq<char>>, i: int, p: Seq<char>)
    requires
        0 <= i < paths.len(),
        plain(paths[i]) == plain(p),
    ensures
        has_path(paths, p),
{
    assert(plains(paths)[i] == plain(p));
}

/// A list of other paths does not have this one.
pub proof fn lemma_lacks_path(paths: Seq<Seq<char>>, p: Seq<char>)
    requires
        forall|i: int| 0 <= i < paths.len() ==> plain(#[trigger] paths[i]) != plain(p),
    ensures
        !has_path(paths, p),
{
    if has_path(paths, p) {
        let i = choose|i: int| 0 <= i < plains(paths).len() && plains(paths)[i] == plain(p);
        assert(plain(paths[i]) == plain(p));
    }
}

/// One more path that a list does not have leaves its paths different.
pub proof fn lemma_one_more_path(paths: Seq<Seq<char>>, p: Seq<char>)
    requires
        paths_differ(paths),
        !has_path(paths, p),
    ensures
        paths_differ(paths.push(p)),
{
    let before = plains(paths);
    let now = plains(paths.push(p));
    assert(now =~= before.push(plain(p)));
    assert forall|i: int, j: int| 0 <= i < now.len() && 0 <= j < now.len() && i != j implies now[i]
        != now[j] by {
        if i < before.len() && j < before.len() {
            assert(before[i] == now[i] && before[j] == now[j]);
        } else if i < before.len() {
            assert(before.contains(now[i]));
        } else {
            assert(before.contains(now[j]));
        }
    }
}

/// Only the end of a path is trimmed, and nothing more can be trimmed off the result.
pub proof fn lemma_trimmed(p: Seq<char>)
    ensures
        trimmed(p).len() <= p.len(),
        trimmed(p) == p.take(trimmed(p).len() as int),
        trimmed(trimmed(p)) == trimmed(p),
        p.len() > 0 ==> trimmed(p).len() > 0,
        trimmed(p).len() > 1 ==> trimmed(p).last() != '/',
    decreases p.len(),
{
    if p.len() > 1 && (p.last() == '/' || (p.last() == '.' && p[p.len() - 2] == '/')) {
        lemma_trimmed(p.drop_last());
        assert(p.drop_last().take(trimmed(p).len() as int) =~= p.take(trimmed(p).len() as int));
    } else {
        assert(p.take(p.len() as int) =~= p);
    }
}

/// Nothing can be trimmed off a path that ends in a plain name.
pub proof fn lemma_named_is_trimmed(head: Seq<char>, name: Seq<char>)
    requires
        is_plain_name(name),
    ensures
        trimmed(head + name) == head + name,
{
    let p = head + name;
    reveal_strlit(".");
    assert(p.last() == name.last());
    assert(name.contains(name.last()));
    if name.len() > 1 {
        assert(p[p.len() - 2] == name[name.len() - 2]);
        assert(name.contains(name[name.len() - 2]));
    } else if name.last() == '.' {
        assert(name =~= "."@);
    }
}

/// The path above another is shorter than it, and nothing can be trimmed off it.
pub proof fn lemma_parent_is_shorter(p: Seq<char>)
    ensures
        parent(p) matches Some(folder) ==> folder.len() < p.len() && trimmed(folder) == folder,
{
    let q = trimmed(p);
    lemma_trimmed(p);
    if parent(p) is Some {
        reveal_strlit("/");
        let k = after_last(q, '/') as int;
        lemma_after_last_is_clean(q, '/');
        lemma_trimmed(q.take(k));
        if k == q.len() {
            lemma_after_last_is_separator(q, '/');
            assert(q =~= "/"@);
        }
    }
}

/// A plain name below a folder is the last component, and the folder is what stands above it.
pub proof fn law_parent_undoes_join(base: Seq<char>, name: Seq<char>)
    requires
        is_plain_name(name),
    ensures
        parent(joined(base, name)) == Some(trimmed(base)),
        last_component(joined(base, name)) == name,
        trimmed(joined(base, name)) == joined(base, name),
{
    reveal_strlit("/");
    let head = if base.len() == 0 || base.last() == '/' {
        base
    } else {
        base + "/"@
    };
    let p = joined(base, name);
    assert(name.contains(name[0]));
    assert(p =~= head + name);
    lemma_named_is_trimmed(head, name);
    lemma_after_last_of_tail(head, name, '/');
    assert(head.len() > 0 ==> head.last() == '/');
    assert(after_last(head, '/') == head.len());
    assert(p.take(head.len() as int) =~= head);
    assert(p.skip(head.len() as int) =~= name);
    assert(p != "/"@) by {
        assert(p.last() == name.last());
        assert(name.contains(name.last()));
    }
    assert(trimmed(head) == trimmed(base)) by {
        if head != base {
            assert(head.drop_last() =~= base);
        }
    }
}

/// What a path names last is a plain name, unless it is the folder that the path starts from.
proof fn lemma_last_component(p: Seq<char>)
    requires
        parent(p) is Some,
    ensures
        is_plain_name(last_component(p)) || (last_component(p) == "."@ && parent(p) == Some(
            Seq::<char>::empty(),
        ) && trimmed(p) == "."@),
{
    let q = trimmed(p);
    let k = after_last(q, '/') as int;
    reveal_strlit(".");
    reveal_strlit("/");
    lemma_trimmed(p);
    lemma_after_last_is_clean(q, '/');
    if k == q.len() {
        lemma_after_last_is_separator(q, '/');
        assert(q =~= "/"@);
    }
    if last_component(p) == "."@ {
        assert(q.skip(k) == "."@);
        assert(q.len() == k + 1);
        assert(q.skip(k)[0] == q[k]);
        if k > 0 {
            lemma_after_last_is_separator(q, '/');
            assert(q[q.len() - 2] == '/');
            lemma_trimmed(q.drop_last());
        }
        assert(q =~= "."@);
        assert(q.take(0) =~= Seq::<char>::empty());
    }
}

/// The plain form names the same file below the same folders, and is its own plain form.
pub proof fn law_plain_form_names_the_same(p: Seq<char>)
    ensures
        plain(plain(p)) == plain(p),
        trimmed(plain(p)) == plain(p),
        last_component(plain(p)) == last_component(p),
        file_name(plain(p)) == file_name(p),
        file_stem(plain(p)) == file_stem(p),
        extension(plain(p)) == extension(p),
        match parent(p) {
            Some(folder) => parent(plain(p)) == Some(plain(folder)),
            None => parent(plain(p)) is None,
        },
    decreases p.len(),
{
    lemma_trimmed(p);
    if parent(p) is Some {
        let folder = parent(p)->0;
        let name = last_component(p);
        lemma_parent_is_shorter(p);
        law_plain_form_names_the_same(folder);
        lemma_last_component(p);
        if is_plain_name(name) {
            law_parent_undoes_join(plain(folder), name);
        } else {
            reveal_strlit(".");
            assert(plain(folder) =~= Seq::<char>::empty());
            assert(plain(p) == "."@);
        }
    }
}

/// A path in which every slash separates two names is its own plain form.
pub proof fn law_plain_paths_stay(p: Seq<char>)
    requires
        is_plain(p),
    ensures
        plain(p) == p,
    decreases p.len(),
{
    reveal_strlit("/");
    if p == "/"@ {
        assert(p.last() == '/');
        assert(trimmed(p) == p);
    } else if p.len() > 0 {
        let k = after_last(p, '/') as int;
        lemma_after_last_is_clean(p, '/');
        if p.last() == '/' {
            assert(separates(p, p.len() - 1));
        }
        if p.len() > 1 && p[p.len() - 2] == '/' {
            assert(separates(p, p.len() - 2));
        }
        assert(trimmed(p) == p);
        let head = p.take(k);
        if k == 0 {
            assert(head =~= Seq::<char>::empty());
            assert(plain(Seq::<char>::empty()) == Seq::<char>::empty());
            assert(p.skip(0) =~= p);
        } else {
            lemma_after_last_is_separator(p, '/');
            assert(head.last() == '/');
            assert(k < p.len());
            if k == 1 {
                assert(head =~= "/"@);
                assert(trimmed(head) == head);
                law_plain_paths_stay(head);
            } else {
                let folder = p.take(k - 1);
                assert(head.drop_last() =~= folder);
                if p[k - 2] == '/' {
                    assert(separates(p, k - 2));
                }
                if k > 2 && p[k - 3] == '/' {
                    assert(separates(p, k - 3));
                }
                assert(trimmed(folder) == folder);
                assert(is_plain(folder)) by {
                    assert forall|i: int|
                        0 <= i < folder.len() && #[trigger] folder[i] == '/' implies separates(
                        folder,
                        i,
                    ) by {
                        assert(p[i] == '/');
                        assert(separates(p, i));
                    }
                }
                law_plain_paths_stay(folder);
            }
            assert(p =~= head + p.skip(k));
            assert(joined(plain(parent(p)->0), p.skip(k)) =~= p) by {
                assert(p.skip(k)[0] == p[k]);
                assert(separates(p, k - 1));
            }
        }
    } else {
        assert(trimmed(p) == p);
    }
}

/// In the plain form every slash separates two names.
pub proof fn law_plain_form_is_plain(p: Seq<char>)
    ensures
        is_plain(plain(p)),
    decreases p.len(),
{
    reveal_strlit("/");
    reveal_strlit(".");
    lemma_trimmed(p);
    if parent(p) is Some {
        let name = last_component(p);
        lemma_parent_is_shorter(p);
        lemma_last_component(p);
        law_plain_form_is_plain(parent(p)->0);
        let folder = plain(parent(p)->0);
        let q = plain(p);
        law_plain_form_names_the_same(parent(p)->0);
        if is_plain_name(name) {
            assert(name.contains(name[0]));
            if name.len() > 1 {
                assert(name.contains(name[1]));
            } else {
                assert(name[0] == '.' ==> name =~= "."@);
            }
            assert forall|i: int| 0 <= i < q.len() && #[trigger] q[i] == '/' implies separates(
                q,
                i,
            ) by {
                let start = q.len() - name.len();
                assert(q.skip(start) =~= name);
                if i >= start {
                    assert(name.contains(name[i - start]));
                } else if i < start - 1 {
                    assert(folder[i] == '/');
                    assert(separates(folder, i));
                } else {
                    assert(q[start] == name[0]);
                    assert(name.len() > 1 ==> q[start + 1] == name[1]);
                }
            }
        } else {
            assert(folder =~= Seq::<char>::empty());
            assert(q == "."@);
        }
    } else {
        assert(trimmed(p) == "/"@ || trimmed(p).len() == 0);
    }
}

/// A file whose new extension leaves it the same path is written as it was.
pub proof fn law_same_file_is_written_alike(p: Seq<char>, ext: Seq<char>)
    requires
        file_name(p) is Some,
        trimmed(p) == p,
        ext.len() > 0,
        !ext.contains('/'),
        plain(with_ext(p, ext)) == plain(p),
    ensures
        with_ext(p, ext) == p,
{
    reveal_strlit(".");
    let k = after_last(p, '/') as int;
    let old_name = p.skip(k);
    let stem = name_stem(old_name);
    let name = stem + "."@ + ext;
    let head = p.take(k);
    let q = with_ext(p, ext);
    lemma_after_last_is_clean(p, '/');
    lemma_after_last_is_clean(old_name, '.');
    assert(q =~= head + name);
    assert forall|i: int| 0 <= i < name.len() implies name[i] != '/' by {
        if i < stem.len() {
            assert(old_name[i] == stem[i] && old_name.contains(old_name[i]));
        } else if i > stem.len() {
            assert(ext.contains(ext[i - stem.len() - 1]));
        }
    }
    assert(name.len() >= 2);
    lemma_named_is_trimmed(head, name);
    lemma_after_last_of_tail(head, name, '/');
    if k > 0 {
        lemma_after_last_is_separator(p, '/');
        assert(head.last() == '/');
    }
    assert(after_last(head, '/') == k);
    assert(q.skip(k) =~= name);
    law_plain_form_names_the_same(p);
    law_plain_form_names_the_same(q);
    assert(name == old_name);
    assert(p =~= head + old_name);
}

/// A plain name replaces the name of a file in its folder, and is the last component.
pub proof fn lemma_named_anew(p: Seq<char>, name: Seq<char>)
    requires
        file_name(p) is Some,
        is_plain_name(name),
    ensures
        parent(with_name(p, name)) == parent(p),
        parent(p) is Some,
        last_component(with_name(p, name)) == name,
        trimmed(with_name(p, name)) == with_name(p, name),
{
    lemma_parent_is_shorter(p);
    assert(parent(p) is Some) by {
        reveal_strlit("/");
        if trimmed(p) == "/"@ {
            assert(after_last(trimmed(p), '/') == 1);
        }
    }
    law_parent_undoes_join(parent(p)->0, name);
}

/// A new plain name is the last component, also of a path that had none.
pub proof fn lemma_new_name_is_last(p: Seq<char>, name: Seq<char>)
    requires
        is_plain_name(name),
    ensures
        last_component(with_name(p, name)) == name,
        trimmed(with_name(p, name)) == with_name(p, name),
{
    if file_name(p) is Some {
        lemma_named_anew(p, name);
    } else {
        law_parent_undoes_join(p, name);
    }
}

/// Behind the last separator there is none.
pub proof fn lemma_after_last_is_clean(s: Seq<char>, c: char)
    ensures
        after_last(s, c) <= s.len(),
        !s.skip(after_last(s, c) as int).contains(c),
    decreases s.len(),
{
    let k = after_last(s, c) as int;
    if s.len() > 0 && s.last() != c {
        lemma_after_last_is_clean(s.drop_last(), c);
        let before = s.drop_last().skip(k);
        assert forall|i: int| 0 <= i < s.skip(k).len() implies s.skip(k)[i] != c by {
            if i < before.len() {
                assert(before[i] != c);
            }
        }
    }
}

/// The separator stands right before what follows it last.
pub proof fn lemma_after_last_is_separator(s: Seq<char>, c: char)
    requires
        after_last(s, c) > 0,
    ensures
        after_last(s, c) <= s.len(),
        s[after_last(s, c) - 1] == c,
    decreases s.len(),
{
    if s.last() != c {
        lemma_after_last_is_separator(s.drop_last(), c);
    }
}

/// A tail without the separator leaves its last position where it was.
pub proof fn lemma_after_last_of_tail(head: Seq<char>, tail: Seq<char>, c: char)
    requires
        !tail.contains(c),
    ensures
        after_last(head + tail, c) == after_last(head, c),
    decreases tail.len(),
{
    if tail.len() == 0 {
        assert(head + tail =~= head);
    } else {
        assert((head + tail).drop_last() =~= head + tail.drop_last());
        assert(tail.last() != c);
        assert forall|i: int| 0 <= i < tail.drop_last().len() implies tail.drop_last()[i] != c by {
            assert(tail[i] != c);
        }
        assert(!tail.drop_last().contains(c));
        lemma_after_last_of_tail(head, tail.drop_last(), c);
    }
}

} // verus!
