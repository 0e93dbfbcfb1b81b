use ellipse::Ellipse;
use vstd::prelude::*;

verus! {

/// What `ellipse` makes of `s` cut to `len` grapheme clusters.
pub uninterp spec fn ellipsed(s: Seq<char>, len: nat) -> Seq<char>;

/// Relies on ellipse's `truncate_ellipse`: the first `len` grapheme clusters of `text`
/// followed by "...", or `text` itself when it has no more than `len` clusters.
#[verifier::external_body]
fn truncate_ellipse(text: &str, len: usize) -> (r: String)
    ensures
        r@ == ellipsed(text@, len as nat),
{
    text.truncate_ellipse(len).to_string()
}

/// `n` blanks.
pub open spec fn blanks(n: nat) -> Seq<char> {
    Seq::new(n, |i: int| ' ')
}

/// `n` dots.
pub open spec fn dots(n: nat) -> Seq<char> {
    Seq::new(n, |i: int| '.')
}

/// The cell that shows `text` in a column `width` characters wide.
pub open spec fn column(text: Seq<char>, width: nat) -> Seq<char> {
    if text.len() <= width {
        text + blanks((width - text.len()) as nat)
    } else if width <= 3 {
        dots(width)
    } else {
        ellipsed(text, (width - 3) as nat)
    }
}

/// Fits `text` into a column `width` characters wide: pads a short text with blanks,
/// cuts a long one with an ellipsis (or shows only dots when the column is narrower than four).
pub fn get_column_string(text: &str, width: usize) -> (r: String)
    ensures
        r@ == column(text@, width as nat),
{
    let len = text.unicode_len();
    if len <= width {
        let mut column_string = text.to_string();
        let mut k: usize = 0;
        while k < width - len
            invariant
                len <= width,
                k <= width - len,
                column_string@ == text@ + blanks(k as nat),
            decreases width - len - k,
        {
            column_string.append(" ");
            proof {
                reveal_strlit(" ");
                assert(text@ + blanks((k + 1) as nat) =~= text@ + blanks(k as nat) + seq![' ']);
            }
            k = k + 1;
        }
        column_string
    } else {
        let mut result = String::new();
        if width <= 3 {
            let mut k: usize = 0;
            while k < width
                invariant
                    k <= width,
                    result@ == dots(k as nat),
                decreases width - k,
            {
                result.append(".");
                proof {
                    reveal_strlit(".");
                    assert(dots((k + 1) as nat) =~= dots(k as nat) + seq!['.']);
                }
                k = k + 1;
            }
            result
        } else {
            truncate_ellipse(text, width - 3)
        }
    }
}

} // verus!
