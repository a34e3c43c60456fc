//! The text of configuration files: where a file lies, and its content
//! without the white space at its end.

use vstd::prelude::*;

verus! {

/// Whether a byte is a line feed, a space or a tab.
pub open spec fn is_blank(byte: u8) -> bool {
    byte == 0x0a || byte == 0x20 || byte == 0x09
}

/// A text without the line feeds, spaces and tabs at its end.
pub open spec fn trimmed(text: Seq<u8>) -> Seq<u8>
    decreases text.len(),
{
    if text.len() > 0 && is_blank(text.last()) {
        trimmed(text.drop_last())
    } else {
        text
    }
}

/// The path of a configuration file: the home directory, the configuration
/// directory and the name of the file, with a slash after each of the first
/// two.
pub open spec fn path_of(home: Seq<u8>, dir: Seq<u8>, name: Seq<u8>) -> Seq<u8> {
    home + seq![0x2fu8] + dir + seq![0x2fu8] + name
}

/// What trimming leaves is the beginning of the text, does not end in white
/// space, and is followed by white space only.
pub proof fn lemma_trimmed(text: Seq<u8>)
    ensures
        trimmed(text).len() <= text.len(),
        trimmed(text) == text.subrange(0, trimmed(text).len() as int),
        trimmed(text).len() > 0 ==> !is_blank(trimmed(text).last()),
        forall|i: int| trimmed(text).len() <= i < text.len() ==> is_blank(text[i]),
    decreases text.len(),
{
    if text.len() > 0 && is_blank(text.last()) {
        let rest = text.drop_last();
        lemma_trimmed(rest);
        assert(trimmed(text) =~= text.subrange(0, trimmed(text).len() as int));
        assert forall|i: int| trimmed(text).len() <= i < text.len() implies is_blank(text[i]) by {
            if i < rest.len() {
                assert(rest[i] == text[i]);
            }
        }
    } else {
        assert(text =~= text.subrange(0, text.len() as int));
    }
}

/// Trimming twice leaves what trimming once leaves.
pub proof fn lemma_trimmed_twice(text: Seq<u8>)
    ensures
        trimmed(trimmed(text)) == trimmed(text),
    decreases text.len(),
{
    if text.len() > 0 && is_blank(text.last()) {
        lemma_trimmed_twice(text.drop_last());
    }
}

/// Takes the line feeds, spaces and tabs off the end of a text.
pub fn trim_end(text: &mut Vec<u8>)
    ensures
        final(text)@ == trimmed(old(text)@),
{
    loop
        invariant
            trimmed(text@) == trimmed(old(text)@),
        ensures
            text@ == trimmed(old(text)@),
        decreases text@.len(),
    {
        let n: usize = text.len();
        if n == 0 {
            break;
        }
        let last: u8 = text[n - 1];
        if !(last == 0x0a || last == 0x20 || last == 0x09) {
            break;
        }
        text.pop();
    }
}

/// The path of a configuration file.
pub fn conf_path(home: &[u8], dir: &[u8], name: &[u8]) -> (path: Vec<u8>)
    ensures
        path@ == path_of(home@, dir@, name@),
{
    let mut path: Vec<u8> = Vec::new();
    path.extend_from_slice(home);
    path.push(0x2f);
    path.extend_from_slice(dir);
    path.push(0x2f);
    path.extend_from_slice(name);
    assert(path@ =~= path_of(home@, dir@, name@));
    path
}

} // verus!
