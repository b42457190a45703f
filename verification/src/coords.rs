use vstd::prelude::*;
use vstd::string::*;

verus! {

pub open spec fn is_letter(c: char) -> bool {
    ('A' <= c && c <= 'Z') || ('a' <= c && c <= 'z')
}

pub open spec fn is_digit(c: char) -> bool {
    '0' <= c && c <= '9'
}

pub open spec fn all_digits(s: Seq<char>) -> bool {
    forall|i: int| 0 <= i < s.len() ==> is_digit(#[trigger] s[i])
}

/// The column that a letter selects: `A` or `a` is column 0.
pub open spec fn column_of(c: char) -> int {
    if 'a' <= c && c <= 'z' {
        c as int - 'a' as int
    } else {
        c as int - 'A' as int
    }
}

pub open spec fn digit_value(c: char) -> int {
    c as int - '0' as int
}

/// The number that a sequence of decimal digits writes, most significant
/// digit first. Leading zeros are allowed; the empty sequence writes 0.
pub open spec fn decimal_value(s: Seq<char>) -> int
    decreases s.len(),
{
    if s.len() == 0 {
        0
    } else {
        decimal_value(s.drop_last()) * 10 + digit_value(s.last())
    }
}

/// The grammar of a coordinate: one ASCII letter, then one or more ASCII
/// digits, and nothing else.
pub open spec fn is_coordinate(text: Seq<char>) -> bool {
    &&& text.len() >= 2
    &&& is_letter(text[0])
    &&& all_digits(text.skip(1))
}

/// The flattened index that a coordinate names on a grid of the given size,
/// or `None` where the text is no coordinate or names a cell off the grid.
/// The letter gives the column, the number the row, counted from 1.
pub open spec fn coordinate_index(text: Seq<char>, width: nat, height: nat) -> Option<int> {
    if is_coordinate(text) {
        let col = column_of(text[0]);
        let line = decimal_value(text.skip(1));
        if col < width && 1 <= line <= height {
            Some((line - 1) * width + col)
        } else {
            None
        }
    } else {
        None
    }
}

/// The upper-case or lower-case letter of a column below 26.
pub open spec fn letter_for(col: nat, upper: bool) -> char {
    if upper {
        ('A' as int + col) as char
    } else {
        ('a' as int + col) as char
    }
}

pub open spec fn digit_for(d: nat) -> char {
    ('0' as int + d) as char
}

/// The decimal numeral of a number, without leading zeros.
pub open spec fn decimal_text(n: nat) -> Seq<char>
    decreases n,
{
    if n < 10 {
        seq![digit_for(n)]
    } else {
        decimal_text(n / 10).push(digit_for(n % 10))
    }
}

/// The text that names the cell in column `col` of row `row` (both from 0).
pub open spec fn coordinate_text(col: nat, row: nat, upper: bool) -> Seq<char> {
    seq![letter_for(col, upper)] + decimal_text(row + 1)
}

/// A numeral is made of digits and writes the number it was made from.
pub proof fn lemma_decimal_text_value(n: nat)
    ensures
        decimal_text(n).len() >= 1,
        all_digits(decimal_text(n)),
        decimal_value(decimal_text(n)) == n,
    decreases n,
{
    if n < 10 {
        let s = decimal_text(n);
        assert(s.drop_last().len() == 0);
        assert(decimal_value(s.drop_last()) == 0);
    } else {
        lemma_decimal_text_value(n / 10);
        let s = decimal_text(n);
        assert(s.drop_last() =~= decimal_text(n / 10));
    }
}

/// Among digit sequences, a prefix never writes more than the whole.
pub proof fn lemma_prefix_value(s: Seq<char>, k: int)
    requires
        all_digits(s),
        0 <= k <= s.len(),
    ensures
        0 <= decimal_value(s.take(k)) <= decimal_value(s),
    decreases s.len() - k,
{
    if k == s.len() {
        assert(s.take(k) =~= s);
        lemma_value_nonnegative(s);
    } else {
        lemma_prefix_value(s, k + 1);
        assert(s.take(k + 1).drop_last() =~= s.take(k));
        lemma_value_nonnegative(s.take(k));
    }
}

pub proof fn lemma_value_nonnegative(s: Seq<char>)
    requires
        all_digits(s),
    ensures
        0 <= decimal_value(s),
    decreases s.len(),
{
    if s.len() > 0 {
        lemma_value_nonnegative(s.drop_last());
    }
}

/// Every cell of a grid has a name, and the name leads back to the cell:
/// for a column below the width (and below 26, the letters there are) and a
/// row below the height, the letter of the column followed by the numeral of
/// the row plus one is a coordinate whose index is `row * width + col`.
pub proof fn lemma_coordinate_round_trip(width: nat, height: nat, col: nat, row: nat, upper: bool)
    requires
        col < width,
        col < 26,
        row < height,
    ensures
        coordinate_index(coordinate_text(col, row, upper), width, height) == Some(
            (row * width + col) as int,
        ),
{
    let text = coordinate_text(col, row, upper);
    lemma_decimal_text_value(row + 1);
    assert(text.skip(1) =~= decimal_text(row + 1));
    assert(text[0] == letter_for(col, upper));
    assert(is_letter(text[0]));
    assert(column_of(text[0]) == col);
}

/// A text names a cell exactly when it is a coordinate whose column lies
/// below the width and whose row number lies between 1 and the height:
/// every other text is rejected, be it malformed or off the grid.
pub proof fn lemma_accepted_texts(text: Seq<char>, width: nat, height: nat)
    ensures
        coordinate_index(text, width, height) is Some <==> {
            &&& is_coordinate(text)
            &&& column_of(text[0]) < width
            &&& 1 <= decimal_value(text.skip(1)) <= height
        },
{
}

/// An index that a coordinate names lies on the grid.
pub proof fn lemma_index_in_grid(text: Seq<char>, width: nat, height: nat)
    ensures
        match coordinate_index(text, width, height) {
            Some(i) => 0 <= i < width * height,
            None => true,
        },
{
    if coordinate_index(text, width, height) is Some {
        let col = column_of(text[0]);
        let line = decimal_value(text.skip(1));
        assert((line - 1) * width + col < width * height) by (nonlinear_arith)
            requires
                0 <= col < width,
                1 <= line <= height,
        ;
        assert(0 <= (line - 1) * width + col) by (nonlinear_arith)
            requires
                0 <= col < width,
                1 <= line <= height,
        ;
    }
}

/// `regex::Regex::new` on `pattern`, then `Regex::captures` on `text`, and
/// the text of the two capture groups. The pattern is fixed by the
/// precondition; it is anchored at both ends, so a match covers the whole
/// text, its first group is one ASCII letter and its second group, one or
/// more decimal digits, is the rest. The crate's `\d` also takes decimal
/// digits beyond ASCII: of a text with such a digit the contract says only
/// what holds if it matched. A letter followed by ASCII digits alone always
/// matches.
#[verifier::external_body]
fn capture_groups(pattern: &str, text: &str) -> (groups: Option<(String, String)>)
    requires
        pattern@ == r"^([A-Za-z])(\d+)$"@,
    ensures
        is_coordinate(text@) ==> groups is Some,
        match groups {
            Some((letter, digits)) => {
                &&& letter@.len() == 1
                &&& is_letter(letter@[0])
                &&& digits@.len() >= 1
                &&& text@ == letter@ + digits@
            },
            None => true,
        },
{
    let re = regex::Regex::new(pattern).unwrap();
    let caps = re.captures(text)?;
    Some((caps.get(1)?.as_str().to_string(), caps.get(2)?.as_str().to_string()))
}

/// The column of a letter.
pub fn column_index(letter: char) -> (col: usize)
    requires
        is_letter(letter),
    ensures
        col == column_of(letter),
        col < 26,
{
    let code: u32 = letter as u32;
    if code >= 'a' as u32 {
        (code - 'a' as u32) as usize
    } else {
        (code - 'A' as u32) as usize
    }
}

/// Reads a decimal number that does not exceed `limit`. `None` where a
/// character is no ASCII digit or the number is larger.
pub fn line_number(digits: &str, limit: usize) -> (line: Option<usize>)
    ensures
        match line {
            Some(value) => all_digits(digits@) && value == decimal_value(digits@) && value <= limit,
            None => !all_digits(digits@) || decimal_value(digits@) > limit,
        },
{
    let n: usize = digits.unicode_len();
    let mut i: usize = 0;
    let mut acc: usize = 0;
    while i < n
        invariant
            n == digits@.len(),
            i <= n,
            all_digits(digits@.take(i as int)),
            acc == decimal_value(digits@.take(i as int)),
            acc <= limit,
        decreases n - i,
    {
        let c: char = digits.get_char(i);
        let code: u32 = c as u32;
        if code < '0' as u32 || code > '9' as u32 {
            assert(!is_digit(digits@[i as int]));
            return None;
        }
        proof {
            assert(digits@.take(i + 1).drop_last() =~= digits@.take(i as int));
            assert(digits@.take(i + 1).last() == c);
            assert forall|j: int| 0 <= j < i + 1 implies is_digit(
                #[trigger] digits@.take(i + 1)[j],
            ) by {
                if j < i {
                    assert(digits@.take(i + 1)[j] == digits@.take(i as int)[j]);
                }
            }
        }
        let next: u128 = acc as u128 * 10 + (code - '0' as u32) as u128;
        if next > limit as u128 {
            proof {
                if all_digits(digits@) {
                    lemma_prefix_value(digits@, i + 1);
                }
            }
            return None;
        }
        acc = next as usize;
        i = i + 1;
    }
    proof {
        assert(digits@.take(n as int) =~= digits@);
    }
    Some(acc)
}

/// Resolves a coordinate on a grid of `width` columns and `height` rows.
pub fn parse_coordinate(coords: &str, width: usize, height: usize) -> (index: Option<usize>)
    requires
        width * height <= usize::MAX,
    ensures
        match coordinate_index(coords@, width as nat, height as nat) {
            Some(i) => index == Some(i as usize) && i < width * height,
            None => index is None,
        },
{
    proof {
        lemma_index_in_grid(coords@, width as nat, height as nat);
    }
    match capture_groups(r"^([A-Za-z])(\d+)$", coords) {
        None => None,
        Some((letter, digits)) => {
            proof {
                assert(coords@.skip(1) =~= digits@);
                assert(coords@[0] == letter@[0]);
            }
            let col: usize = column_index(letter.as_str().get_char(0));
            match line_number(digits.as_str(), height) {
                None => None,
                Some(line) => {
                    if col < width && line >= 1 {
                        assert((line - 1) * width + col < width * height) by (nonlinear_arith)
                            requires
                                0 <= col < width,
                                1 <= line <= height,
                        ;
                        assert(0 <= (line - 1) * width) by (nonlinear_arith)
                            requires
                                0 <= width,
                                1 <= line,
                        ;
                        Some((line - 1) * width + col)
                    } else {
                        None
                    }
                },
            }
        },
    }
}

} // verus!
