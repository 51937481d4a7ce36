use vstd::prelude::*;

use crate::addr::SockAddr;
use crate::text::{chars_of, ends_with_extension, has_extension};

verus! {

/// A loaded plugin: the absolute path of its library, its file name, and the
/// local address of the socket handed to it.
pub struct PluginDescriptor {
    pub path: String,
    pub name: String,
    pub local: SockAddr,
}

/// The texts that a sequence of strings holds.
pub open spec fn texts(v: Seq<String>) -> Seq<Seq<char>> {
    v.map_values(|s: String| s@)
}

/// Whether a file name carries one of the dynamic-library extensions
/// `dll`, `dylib` and `so`.
pub open spec fn is_library_name(name: Seq<char>) -> bool {
    has_extension(name, "dll"@) || has_extension(name, "dylib"@) || has_extension(name, "so"@)
}

/// The names among `names` that `enabled` holds, in the order of `names`.
pub open spec fn enabled_names(names: Seq<Seq<char>>, enabled: Seq<Seq<char>>) -> Seq<Seq<char>>
    decreases names.len(),
{
    if names.len() == 0 {
        Seq::empty()
    } else if enabled.contains(names.last()) {
        enabled_names(names.drop_last(), enabled).push(names.last())
    } else {
        enabled_names(names.drop_last(), enabled)
    }
}

/// The library file names among `files`, in their order.
pub open spec fn library_names_of(files: Seq<Seq<char>>) -> Seq<Seq<char>>
    decreases files.len(),
{
    if files.len() == 0 {
        Seq::empty()
    } else if is_library_name(files.last()) {
        library_names_of(files.drop_last()).push(files.last())
    } else {
        library_names_of(files.drop_last())
    }
}

/// Whether `v` holds the text of `s`.
pub fn contains_text(v: &Vec<String>, s: &String) -> (r: bool)
    ensures
        r == texts(v@).contains(s@),
{
    let mut i: usize = 0;
    while i < v.len()
        invariant
            i <= v@.len(),
            forall|k: int| 0 <= k < i ==> v@[k]@ != s@,
        decreases v@.len() - i,
    {
        if v[i] == *s {
            assert(texts(v@)[i as int] == s@);
            return true;
        }
        i += 1;
    }
    assert forall|k: int| 0 <= k < texts(v@).len() implies texts(v@)[k] != s@ by {
        assert(texts(v@)[k] == v@[k]@);
    }
    false
}

/// Whether a file name is that of a dynamic library.
pub fn is_library_file(name: &str) -> (r: bool)
    ensures
        r == is_library_name(name@),
{
    let cs = chars_of(name);
    ends_with_extension(&cs, "dll") || ends_with_extension(&cs, "dylib") || ends_with_extension(
        &cs,
        "so",
    )
}

/// The file names among `files` that are those of dynamic libraries, in
/// their order.
pub fn library_names(files: &Vec<String>) -> (r: Vec<String>)
    ensures
        texts(r@) == library_names_of(texts(files@)),
{
    let mut r: Vec<String> = Vec::new();
    let mut i: usize = 0;
    while i < files.len()
        invariant
            i <= files@.len(),
            texts(r@) == library_names_of(texts(files@).subrange(0, i as int)),
        decreases files@.len() - i,
    {
        let ghost pre = texts(files@).subrange(0, i as int);
        let ghost before = r@;
        assert(texts(files@).subrange(0, i + 1).drop_last() =~= pre);
        assert(texts(files@).subrange(0, i + 1).last() == files@[i as int]@);
        if is_library_file(files[i].as_str()) {
            r.push(files[i].clone());
            assert(texts(r@) =~= texts(before).push(files@[i as int]@));
        } else {
            assert(texts(r@) =~= texts(before));
        }
        i += 1;
    }
    assert(texts(files@).subrange(0, i as int) =~= texts(files@));
    r
}

/// The names among `names` that `enabled` holds, in the order of `names`.
pub fn enabled_plugins(names: &Vec<String>, enabled: &Vec<String>) -> (r: Vec<String>)
    ensures
        texts(r@) == enabled_names(texts(names@), texts(enabled@)),
{
    let mut r: Vec<String> = Vec::new();
    let mut i: usize = 0;
    while i < names.len()
        invariant
            i <= names@.len(),
            texts(r@) == enabled_names(texts(names@).subrange(0, i as int), texts(enabled@)),
        decreases names@.len() - i,
    {
        let ghost pre = texts(names@).subrange(0, i as int);
        let ghost before = r@;
        assert(texts(names@).subrange(0, i + 1).drop_last() =~= pre);
        assert(texts(names@).subrange(0, i + 1).last() == names@[i as int]@);
        if contains_text(enabled, &names[i]) {
            r.push(names[i].clone());
            assert(texts(r@) =~= texts(before).push(names@[i as int]@));
        } else {
            assert(texts(r@) =~= texts(before));
        }
        i += 1;
    }
    assert(texts(names@).subrange(0, i as int) =~= texts(names@));
    r
}

} // verus!
