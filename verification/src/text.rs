use vstd::prelude::*;

verus! {

/// The characters with the Unicode `White_Space` property, written out:
/// the tab row U+0009..U+000D, space, next line, no-break space, ogham space
/// mark, the typographic spaces U+2000..U+200A, the line and paragraph
/// separators, the narrow and medium mathematical spaces, and the ideographic
/// space.
pub open spec fn is_space_char(c: char) -> bool {
    ||| c == '\u{0009}'
    ||| c == '\u{000A}'
    ||| c == '\u{000B}'
    ||| c == '\u{000C}'
    ||| c == '\u{000D}'
    ||| c == ' '
    ||| c == '\u{0085}'
    ||| c == '\u{00A0}'
    ||| c == '\u{1680}'
    ||| c == '\u{2000}'
    ||| c == '\u{2001}'
    ||| c == '\u{2002}'
    ||| c == '\u{2003}'
    ||| c == '\u{2004}'
    ||| c == '\u{2005}'
    ||| c == '\u{2006}'
    ||| c == '\u{2007}'
    ||| c == '\u{2008}'
    ||| c == '\u{2009}'
    ||| c == '\u{200A}'
    ||| c == '\u{2028}'
    ||| c == '\u{2029}'
    ||| c == '\u{202F}'
    ||| c == '\u{205F}'
    ||| c == '\u{3000}'
}

/// Blank text: empty, or whitespace through and through. Blank values are
/// never recorded in the history.
pub open spec fn is_blank_text(s: Seq<char>) -> bool {
    forall|i: int| 0 <= i < s.len() ==> is_space_char(#[trigger] s[i])
}

/// Relies on `str::trim` and `str::is_empty`: `trim` removes exactly the
/// leading and trailing characters with the Unicode `White_Space` property
/// (the set `is_space_char` lists), so the trimmed string is empty exactly
/// when every character of `s` has that property.
#[verifier::external_body]
pub(crate) fn is_blank(s: &String) -> (blank: bool)
    ensures
        blank == is_blank_text(s@),
{
    s.trim().is_empty()
}

} // verus!
