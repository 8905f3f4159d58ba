use vstd::prelude::*;
use vstd::string::*;

use crate::format::{Engine, FileKind};

verus! {

/// The extension of a plain file of the kind.
pub open spec fn plain_ext(kind: FileKind) -> Seq<char> {
    match kind {
        FileKind::Png => seq!['p', 'n', 'g'],
        FileKind::Ogg => seq!['o', 'g', 'g'],
        FileKind::M4a => seq!['m', '4', 'a'],
    }
}

/// The extension of an obfuscated file of the kind under the engine variant.
pub open spec fn obfuscated_ext(kind: FileKind, engine: Engine) -> Seq<char> {
    match (engine, kind) {
        (Engine::MV, FileKind::Png) => seq!['r', 'p', 'g', 'm', 'v', 'p'],
        (Engine::MV, FileKind::Ogg) => seq!['r', 'p', 'g', 'm', 'v', 'o'],
        (Engine::MV, FileKind::M4a) => seq!['r', 'p', 'g', 'm', 'v', 'm'],
        (Engine::MZ, FileKind::Png) => seq!['p', 'n', 'g', '_'],
        (Engine::MZ, FileKind::Ogg) => seq!['o', 'g', 'g', '_'],
        (Engine::MZ, FileKind::M4a) => seq!['m', '4', 'a', '_'],
    }
}

/// The kind of a plain file by its extension.
pub open spec fn kind_of_plain_ext(ext: Seq<char>) -> Option<FileKind> {
    if ext == plain_ext(FileKind::Png) {
        Some(FileKind::Png)
    } else if ext == plain_ext(FileKind::Ogg) {
        Some(FileKind::Ogg)
    } else if ext == plain_ext(FileKind::M4a) {
        Some(FileKind::M4a)
    } else {
        None
    }
}

/// The kind of an obfuscated file by its extension, under either engine variant.
pub open spec fn kind_of_obfuscated_ext(ext: Seq<char>) -> Option<FileKind> {
    if ext == obfuscated_ext(FileKind::Png, Engine::MV) || ext == obfuscated_ext(
        FileKind::Png,
        Engine::MZ,
    ) {
        Some(FileKind::Png)
    } else if ext == obfuscated_ext(FileKind::Ogg, Engine::MV) || ext == obfuscated_ext(
        FileKind::Ogg,
        Engine::MZ,
    ) {
        Some(FileKind::Ogg)
    } else if ext == obfuscated_ext(FileKind::M4a, Engine::MV) || ext == obfuscated_ext(
        FileKind::M4a,
        Engine::MZ,
    ) {
        Some(FileKind::M4a)
    } else {
        None
    }
}

/// Whether two texts hold the same characters.
pub fn same_text(a: &str, b: &str) -> (r: bool)
    ensures
        r == (a@ == b@),
{
    let n = a.unicode_len();
    if n != b.unicode_len() {
        return false;
    }
    let mut i: usize = 0;
    while i < n
        invariant
            n == a@.len(),
            n == b@.len(),
            0 <= i <= n,
            forall|j: int| 0 <= j < i ==> a@[j] == b@[j],
        decreases n - i,
    {
        if a.get_char(i) != b.get_char(i) {
            return false;
        }
        i += 1;
    }
    assert(a@ =~= b@);
    true
}

/// The extension of a plain file of the kind.
pub fn plain_extension(kind: FileKind) -> (r: &'static str)
    ensures
        r@ == plain_ext(kind),
{
    proof {
        reveal_strlit("png");
        reveal_strlit("ogg");
        reveal_strlit("m4a");
    }
    let r = match kind {
        FileKind::Png => "png",
        FileKind::Ogg => "ogg",
        FileKind::M4a => "m4a",
    };
    assert(r@ =~= plain_ext(kind));
    r
}

/// The extension of an obfuscated file of the kind under the engine variant.
pub fn obfuscated_extension(kind: FileKind, engine: Engine) -> (r: &'static str)
    ensures
        r@ == obfuscated_ext(kind, engine),
{
    proof {
        reveal_strlit("rpgmvp");
        reveal_strlit("rpgmvo");
        reveal_strlit("rpgmvm");
        reveal_strlit("png_");
        reveal_strlit("ogg_");
        reveal_strlit("m4a_");
    }
    let r = match (engine, kind) {
        (Engine::MV, FileKind::Png) => "rpgmvp",
        (Engine::MV, FileKind::Ogg) => "rpgmvo",
        (Engine::MV, FileKind::M4a) => "rpgmvm",
        (Engine::MZ, FileKind::Png) => "png_",
        (Engine::MZ, FileKind::Ogg) => "ogg_",
        (Engine::MZ, FileKind::M4a) => "m4a_",
    };
    assert(r@ =~= obfuscated_ext(kind, engine));
    r
}

/// The kind of a plain file by its extension, if it is one of the plain extensions.
pub fn kind_of_plain_extension(ext: &str) -> (r: Option<FileKind>)
    ensures
        r == kind_of_plain_ext(ext@),
{
    if same_text(ext, plain_extension(FileKind::Png)) {
        Some(FileKind::Png)
    } else if same_text(ext, plain_extension(FileKind::Ogg)) {
        Some(FileKind::Ogg)
    } else if same_text(ext, plain_extension(FileKind::M4a)) {
        Some(FileKind::M4a)
    } else {
        None
    }
}

/// The kind of an obfuscated file by its extension, if it is one of the obfuscated extensions.
pub fn kind_of_obfuscated_extension(ext: &str) -> (r: Option<FileKind>)
    ensures
        r == kind_of_obfuscated_ext(ext@),
{
    if same_text(ext, obfuscated_extension(FileKind::Png, Engine::MV)) || same_text(
        ext,
        obfuscated_extension(FileKind::Png, Engine::MZ),
    ) {
        Some(FileKind::Png)
    } else if same_text(ext, obfuscated_extension(FileKind::Ogg, Engine::MV)) || same_text(
        ext,
        obfuscated_extension(FileKind::Ogg, Engine::MZ),
    ) {
        Some(FileKind::Ogg)
    } else if same_text(ext, obfuscated_extension(FileKind::M4a, Engine::MV)) || same_text(
        ext,
        obfuscated_extension(FileKind::M4a, Engine::MZ),
    ) {
        Some(FileKind::M4a)
    } else {
        None
    }
}

} // verus!
