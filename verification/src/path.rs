//! Names of shared memory objects.

use crate::text::join;
use vstd::prelude::*;
use vstd::utf8::{char_u32_cast, encode_scalar, encode_utf8};

verus! {

/// A name that cannot be handed to the operating system: the byte at this position
/// is zero.
#[derive(Clone, Copy, Debug, PartialEq, Eq, Structural)]
pub struct NulError {
    pub position: usize,
}

/// The name of the object: the given name, with a slash in front unless it has one.
pub open spec fn slash_name(name: Seq<char>) -> Seq<char> {
    if name.len() > 0 && name[0] == '/' {
        name
    } else {
        seq!['/'] + name
    }
}

/// Whether the first zero byte of the text's encoding is at `position`.
pub open spec fn first_nul(bytes: Seq<u8>, position: int) -> bool {
    &&& 0 <= position < bytes.len()
    &&& bytes[position] == 0
    &&& forall|i: int| 0 <= i < position ==> bytes[i] != 0
}

/// Whether the encoding of the text has no zero byte.
pub open spec fn nul_free(bytes: Seq<u8>) -> bool {
    forall|i: int| 0 <= i < bytes.len() ==> bytes[i] != 0
}

/// The name of the shared memory object that `name` stands for. It has no zero byte.
pub fn shm_path(name: &str) -> (path: Result<String, NulError>)
    ensures
        path is Ok <==> nul_free(encode_utf8(slash_name(name@))),
        path matches Ok(text) ==> text@ == slash_name(name@),
        path matches Err(e) ==> first_nul(
            encode_utf8(slash_name(name@)),
            e.position as int,
        ),
{
    let slashed = if !name.is_empty() && name.get_char(0) == '/' {
        name.to_owned()
    } else {
        proof {
            reveal_strlit("/");
            assert("/"@ =~= seq!['/']);
        }
        join("/", name)
    };
    let bytes = slashed.as_str().as_bytes();
    let mut i: usize = 0;
    while i < bytes.len()
        invariant
            i <= bytes@.len(),
            bytes@ == encode_utf8(slash_name(name@)),
            forall|j: int| 0 <= j < i ==> bytes@[j] != 0,
        decreases bytes@.len() - i,
    {
        if bytes[i] == 0 {
            return Err(NulError { position: i });
        }
        i = i + 1;
    }
    Ok(slashed)
}

/// Among all scalar values only zero has a zero byte in its encoding.
proof fn lemma_scalar_bytes(scalar: u32)
    ensures
        encode_scalar(scalar).len() > 0,
        nul_free(encode_scalar(scalar)) <==> scalar != 0,
{
    assert((scalar <= 0x7F && scalar != 0) ==> (scalar & 0x7F) as u8 != 0) by (bit_vector);
    assert((0u32 & 0x7F) as u8 == 0) by (bit_vector);
    assert(0xC0 | ((scalar >> 6) & 0x1F) as u8 != 0) by (bit_vector);
    assert(0xE0 | ((scalar >> 12) & 0x0F) as u8 != 0) by (bit_vector);
    assert(0xF0 | ((scalar >> 18) & 0x7) as u8 != 0) by (bit_vector);
    assert(0x80 | (scalar & 0x3F) as u8 != 0) by (bit_vector);
    assert(0x80 | ((scalar >> 6) & 0x3F) as u8 != 0) by (bit_vector);
    assert(0x80 | ((scalar >> 12) & 0x3F) as u8 != 0) by (bit_vector);
    if scalar == 0 {
        assert(encode_scalar(scalar)[0] == 0);
    }
}

/// A text's encoding has a zero byte exactly if the text has a zero character.
pub proof fn zero_bytes_are_zero_characters(text: Seq<char>)
    ensures
        nul_free(encode_utf8(text)) <==> !text.contains('\0'),
    decreases text.len(),
{
    if text.len() > 0 {
        let rest = text.drop_first();
        let head = encode_scalar(text[0] as u32);
        let tail = encode_utf8(rest);
        zero_bytes_are_zero_characters(rest);
        lemma_scalar_bytes(text[0] as u32);
        char_u32_cast(text[0], text[0] as u32);
        assert(encode_utf8(text) == head + tail);
        if nul_free(head + tail) {
            assert forall|i: int| 0 <= i < head.len() implies head[i] != 0 by {
                assert(head[i] == (head + tail)[i]);
            }
            assert forall|i: int| 0 <= i < tail.len() implies tail[i] != 0 by {
                assert(tail[i] == (head + tail)[head.len() + i]);
            }
            assert forall|i: int| 0 <= i < text.len() implies text[i] != '\0' by {
                if i > 0 {
                    assert(rest[i - 1] == text[i]);
                    assert(rest.contains(text[i]));
                }
            }
        }
        if !text.contains('\0') {
            assert(text.contains(text[0]));
            assert forall|i: int| 0 <= i < rest.len() implies rest[i] != '\0' by {
                assert(text.contains(text[i + 1]));
            }
            assert(!rest.contains('\0'));
            assert(nul_free(head) && nul_free(tail));
        }
    }
}

/// A name is refused exactly if it has a zero character.
pub proof fn refused_exactly_with_zero_character(name: Seq<char>)
    ensures
        nul_free(encode_utf8(slash_name(name))) <==> !name.contains('\0'),
{
    let path = slash_name(name);
    zero_bytes_are_zero_characters(path);
    if path.len() > name.len() {
        assert forall|i: int| 0 <= i < name.len() implies name[i] == path[i + 1] by {}
        if name.contains('\0') {
            let i = choose|i: int| 0 <= i < name.len() && name[i] == '\0';
            assert(path[i + 1] == '\0');
            assert(path.contains('\0'));
        }
        if path.contains('\0') {
            let i = choose|i: int| 0 <= i < path.len() && path[i] == '\0';
            assert(name[i - 1] == '\0');
            assert(name.contains('\0'));
        }
    }
}

/// A name and the same name with a slash in front stand for the same object, and the
/// object's own name stands for it too.
pub proof fn slash_is_optional(name: Seq<char>)
    requires
        name.len() == 0 || name[0] != '/',
    ensures
        slash_name(seq!['/'] + name) == slash_name(name),
        slash_name(slash_name(name)) == slash_name(name),
{
}

/// Every object's name starts with a slash.
pub proof fn path_starts_with_slash(name: Seq<char>)
    ensures
        slash_name(name).len() > 0,
        slash_name(name)[0] == '/',
{
}

/// The object's name is the given name, character by character, behind one slash; a
/// slash that the given name starts with counts as that one.
pub proof fn path_is_a_slash_and_the_name(name: Seq<char>)
    ensures
        name.len() > 0 && name[0] == '/' ==> slash_name(name) == name,
        name.len() == 0 || name[0] != '/' ==> {
            &&& slash_name(name).len() == name.len() + 1
            &&& slash_name(name)[0] == '/'
            &&& slash_name(name).drop_first() == name
            &&& forall|i: int| 0 <= i < name.len() ==> #[trigger] slash_name(name)[i + 1] == name[i]
        },
{
    if name.len() == 0 || name[0] != '/' {
        assert(slash_name(name).drop_first() =~= name);
    }
}

/// Two names stand for the same object only if they are the same, apart from a slash
/// in front.
pub proof fn names_are_told_apart(a: Seq<char>, b: Seq<char>)
    ensures
        (a.len() == 0 || a[0] != '/') && (b.len() == 0 || b[0] != '/') && a != b ==> slash_name(a)
            != slash_name(b),
        (a.len() > 0 && a[0] == '/') && (b.len() > 0 && b[0] == '/') && a != b ==> slash_name(a)
            != slash_name(b),
        (a.len() == 0 || a[0] != '/') && (b.len() > 0 && b[0] == '/') ==> (slash_name(a)
            == slash_name(b) <==> b.drop_first() == a),
{
    path_is_a_slash_and_the_name(a);
    path_is_a_slash_and_the_name(b);
    if (a.len() == 0 || a[0] != '/') && (b.len() > 0 && b[0] == '/') && b.drop_first() == a {
        assert(slash_name(a) =~= b);
    }
}

/// A name without a zero character gets its path, which is the name behind one slash;
/// one with a zero character is refused, with the place of the first zero byte of what
/// would have been the path.
pub proof fn paths_are_made_of_names(
    name: &str,
    path: Result<String, NulError>,
    slashed: Seq<char>,
)
    requires
        call_ensures(shm_path, (name,), path),
        name@.len() > 0 && name@[0] == '/' ==> slashed == name@,
        name@.len() == 0 || name@[0] != '/' ==> slashed == seq!['/'] + name@,
    ensures
        path is Ok <==> !name@.contains('\0'),
        path matches Ok(text) ==> text@ == slashed,
        path matches Err(e) ==> {
            &&& e.position < encode_utf8(slashed).len()
            &&& encode_utf8(slashed)[e.position as int] == 0
            &&& forall|i: int| 0 <= i < e.position ==> #[trigger] encode_utf8(slashed)[i] != 0
        },
{
    refused_exactly_with_zero_character(name@);
    path_is_a_slash_and_the_name(name@);
    assert(slash_name(name@) =~= slashed);
}

/// Different names get different paths, unless a slash in front is all the difference.
pub proof fn different_names_get_different_paths(a: &str, b: &str, at: String, bt: String)
    requires
        call_ensures(shm_path, (a,), Ok(at)),
        call_ensures(shm_path, (b,), Ok(bt)),
        (a@.len() == 0 || a@[0] != '/') == (b@.len() == 0 || b@[0] != '/'),
    ensures
        at@ == bt@ <==> a@ == b@,
{
    names_are_told_apart(a@, b@);
}

} // verus!
