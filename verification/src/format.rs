//! The formatter: one line of right-aligned counts, with an optional label.

use crate::counts::{CountOptions, CountsView, InputCounts};
use vstd::prelude::*;
use vstd::string::{StrSliceExecFns, StringExecFns};

verus! {

/// The width of a column where two or more metrics are shown.
pub const COLUMN_WIDTH: usize = 8;

/// The character of a decimal digit.
pub open spec fn digit_char(d: nat) -> char
    recommends
        d < 10,
{
    if d == 0 {
        '0'
    } else if d == 1 {
        '1'
    } else if d == 2 {
        '2'
    } else if d == 3 {
        '3'
    } else if d == 4 {
        '4'
    } else if d == 5 {
        '5'
    } else if d == 6 {
        '6'
    } else if d == 7 {
        '7'
    } else if d == 8 {
        '8'
    } else {
        '9'
    }
}

/// A number in decimal, without leading zeros: `"0"` for zero.
pub open spec fn decimal(n: nat) -> Seq<char>
    decreases n,
{
    if n < 10 {
        seq![digit_char(n)]
    } else {
        decimal(n / 10).push(digit_char(n % 10))
    }
}

/// `count` spaces.
pub open spec fn spaces(count: nat) -> Seq<char> {
    Seq::new(count, |i: int| ' ')
}

/// `text` moved to the right edge of a column of `width` characters. A text
/// as wide as the column, or wider, is left as it is.
pub open spec fn right_aligned(text: Seq<char>, width: nat) -> Seq<char> {
    if text.len() < width {
        spaces((width - text.len()) as nat) + text
    } else {
        text
    }
}

/// The width of each field: none where a single metric is selected, the
/// column width otherwise.
pub open spec fn field_width(options: CountOptions) -> nat {
    if options.enabled() == 1 {
        0
    } else {
        COLUMN_WIDTH as nat
    }
}

/// The field of one metric: its number where the metric is selected,
/// nothing where it is not.
pub open spec fn field(selected: bool, n: nat, width: nat) -> Seq<char> {
    if selected {
        right_aligned(decimal(n), width)
    } else {
        Seq::empty()
    }
}

/// The fields of the selected metrics in their fixed order: lines, words,
/// characters, tokens.
pub open spec fn fields(counts: CountsView, options: CountOptions) -> Seq<char> {
    let width = field_width(options);
    field(options.show_lines, counts.lines, width) + field(
        options.show_words,
        counts.words,
        width,
    ) + field(options.show_chars, counts.chars, width) + field(
        options.show_tokens,
        counts.tokens,
        width,
    )
}

/// `text` followed by a space and the label, where there is one.
pub open spec fn labelled(text: Seq<char>, label: Option<Seq<char>>) -> Seq<char> {
    match label {
        Some(name) => text + seq![' '] + name,
        None => text,
    }
}

/// Whitespace of text: the characters with the Unicode property White_Space.
pub open spec fn is_text_whitespace(c: char) -> bool {
    let u = c as u32;
    (0x09 <= u <= 0x0D) || u == 0x20 || u == 0x85 || u == 0xA0 || u == 0x1680 || (0x2000 <= u
        <= 0x200A) || u == 0x2028 || u == 0x2029 || u == 0x202F || u == 0x205F || u == 0x3000
}

/// `text` without the whitespace at its end.
pub open spec fn trimmed_end(text: Seq<char>) -> Seq<char>
    decreases text.len(),
{
    if text.len() > 0 && is_text_whitespace(text.last()) {
        trimmed_end(text.drop_last())
    } else {
        text
    }
}

/// The line for `counts`: the fields, the label, whitespace at the end
/// removed, and one line feed.
pub open spec fn formatted_line(
    counts: CountsView,
    options: CountOptions,
    label: Option<Seq<char>>,
) -> Seq<char> {
    trimmed_end(labelled(fields(counts, options), label)).push('\n')
}

/// The view of an optional label.
pub open spec fn label_view(label: Option<&str>) -> Option<Seq<char>> {
    match label {
        Some(name) => Some(name@),
        None => None,
    }
}

/// Calls `str::trim_end`. Trusted: the result is the given text up to its
/// last character that is no whitespace, whitespace being the characters
/// with the Unicode property White_Space. The call never fails.
#[verifier::external_body]
fn trim_end(text: &str) -> (r: &str)
    ensures
        r@ == trimmed_end(text@),
{
    text.trim_end()
}

fn digit_text(d: usize) -> (r: &'static str)
    requires
        d < 10,
    ensures
        r@ == seq![digit_char(d as nat)],
{
    proof {
        reveal_strlit("0");
        reveal_strlit("1");
        reveal_strlit("2");
        reveal_strlit("3");
        reveal_strlit("4");
        reveal_strlit("5");
        reveal_strlit("6");
        reveal_strlit("7");
        reveal_strlit("8");
        reveal_strlit("9");
    }
    let r = if d == 0 {
        "0"
    } else if d == 1 {
        "1"
    } else if d == 2 {
        "2"
    } else if d == 3 {
        "3"
    } else if d == 4 {
        "4"
    } else if d == 5 {
        "5"
    } else if d == 6 {
        "6"
    } else if d == 7 {
        "7"
    } else if d == 8 {
        "8"
    } else {
        "9"
    };
    assert(r@ =~= seq![digit_char(d as nat)]);
    r
}

/// Writes `n` in decimal.
pub fn decimal_string(n: usize) -> (text: String)
    ensures
        text@ == decimal(n as nat),
    decreases n,
{
    if n < 10 {
        String::from_str(digit_text(n))
    } else {
        let mut text = decimal_string(n / 10);
        text.append(digit_text(n % 10));
        assert(text@ =~= decimal(n as nat));
        text
    }
}

/// Appends the number `n` to `out`, right-aligned in `width` characters.
fn push_field(out: &mut String, n: usize, width: usize)
    ensures
        final(out)@ == old(out)@ + right_aligned(decimal(n as nat), width as nat),
{
    let digits = decimal_string(n);
    let len: usize = digits.as_str().unicode_len();
    let mut used: usize = len;
    let ghost start = out@;
    assert(out@ =~= start + spaces(0));
    while used < width
        invariant
            len == digits@.len(),
            digits@ == decimal(n as nat),
            len <= used,
            len < width ==> used <= width,
            len >= width ==> used == len,
            out@ == start + spaces((used - len) as nat),
        decreases width - used,
    {
        proof {
            reveal_strlit(" ");
            assert(" "@ =~= seq![' ']);
        }
        out.append(" ");
        used = used + 1;
        assert(out@ =~= start + spaces((used - len) as nat));
    }
    out.append(digits.as_str());
    assert(out@ =~= start + right_aligned(decimal(n as nat), width as nat));
}

/// Renders the line for `counts`: one field for each selected metric, in
/// the order lines, words, characters, tokens; then a space and the label,
/// where one is given; whitespace at the end removed; one line feed.
pub fn format_counts(counts: &InputCounts, options: &CountOptions, label: Option<&str>) -> (line:
    String)
    ensures
        line@ == formatted_line(counts@, *options, label_view(label)),
{
    let width: usize = if options.count_enabled_options() == 1 {
        0
    } else {
        COLUMN_WIDTH
    };
    let mut output = String::new();
    if options.show_lines {
        push_field(&mut output, counts.lines, width);
    }
    if options.show_words {
        push_field(&mut output, counts.words, width);
    }
    if options.show_chars {
        push_field(&mut output, counts.chars, width);
    }
    if options.show_tokens {
        push_field(&mut output, counts.tokens, width);
    }
    assert(output@ =~= fields(counts@, *options));
    match label {
        Some(name) => {
            proof {
                reveal_strlit(" ");
            }
            output.append(" ");
            output.append(name);
            assert(output@ =~= labelled(fields(counts@, *options), label_view(label)));
        },
        None => {},
    }
    let mut line = String::from_str(trim_end(output.as_str()));
    proof {
        reveal_strlit("\n");
    }
    line.append("\n");
    assert(line@ =~= formatted_line(counts@, *options, label_view(label)));
    line
}

/// The count of the first selected metric, in the order of the fields.
pub open spec fn first_selected(counts: CountsView, options: CountOptions) -> nat {
    if options.show_lines {
        counts.lines
    } else if options.show_words {
        counts.words
    } else if options.show_chars {
        counts.chars
    } else {
        counts.tokens
    }
}

/// A number in decimal has at least one character and ends in a digit,
/// which is no whitespace: trimming leaves it, and what stands before it,
/// alone.
pub proof fn lemma_decimal_ends_in_digit(n: nat, before: Seq<char>)
    ensures
        decimal(n).len() >= 1,
        !is_text_whitespace(decimal(n).last()),
        trimmed_end(before + decimal(n)) == before + decimal(n),
{
    assert((before + decimal(n)).last() == decimal(n).last());
}

/// A field is as wide as its column, or as its number where that is wider.
pub proof fn lemma_right_aligned_len(text: Seq<char>, width: nat)
    ensures
        right_aligned(text, width).len() == if text.len() < width {
            width
        } else {
            text.len()
        },
{
}

/// With exactly one metric selected and no label, the line is the number
/// and a line feed: no padding.
pub proof fn lemma_single_metric_unpadded(counts: CountsView, options: CountOptions)
    requires
        options.enabled() == 1,
    ensures
        fields(counts, options) == decimal(first_selected(counts, options)),
        formatted_line(counts, options, None) == decimal(first_selected(counts, options)).push(
            '\n',
        ),
{
    let n = first_selected(counts, options);
    assert(fields(counts, options) =~= decimal(n));
    lemma_decimal_ends_in_digit(n, Seq::empty());
    assert(Seq::<char>::empty() + decimal(n) =~= decimal(n));
}

/// With two or more metrics selected, every selected metric takes a column
/// of the fixed width (more where its number is wider), so the fields of a
/// line are at least as wide as its columns together.
pub proof fn lemma_columns_padded(counts: CountsView, options: CountOptions)
    requires
        options.enabled() >= 2,
    ensures
        field_width(options) == COLUMN_WIDTH,
        fields(counts, options).len() >= options.enabled() * COLUMN_WIDTH,
{
    let width = field_width(options);
    lemma_right_aligned_len(decimal(counts.lines), width);
    lemma_right_aligned_len(decimal(counts.words), width);
    lemma_right_aligned_len(decimal(counts.chars), width);
    lemma_right_aligned_len(decimal(counts.tokens), width);
}

/// Without a label the fields reach the line unchanged, whatever is
/// selected, so long as something is.
pub proof fn lemma_unlabelled_line(counts: CountsView, options: CountOptions)
    requires
        options.enabled() >= 1,
    ensures
        formatted_line(counts, options, None) == fields(counts, options).push('\n'),
{
    let width = field_width(options);
    let a = field(options.show_lines, counts.lines, width);
    let b = field(options.show_words, counts.words, width);
    let c = field(options.show_chars, counts.chars, width);
    let d = field(options.show_tokens, counts.tokens, width);
    let all = fields(counts, options);
    lemma_field_ends_in_digit(options.show_lines, counts.lines, width);
    lemma_field_ends_in_digit(options.show_words, counts.words, width);
    lemma_field_ends_in_digit(options.show_chars, counts.chars, width);
    lemma_field_ends_in_digit(options.show_tokens, counts.tokens, width);
    assert(all.len() > 0 && !is_text_whitespace(all.last())) by {
        if options.show_tokens {
            assert(all.last() == d.last());
        } else if options.show_chars {
            assert(all =~= a + b + c);
            assert(all.last() == c.last());
        } else if options.show_words {
            assert(all =~= a + b);
            assert(all.last() == b.last());
        } else {
            assert(all =~= a);
        }
    }
}

/// A selected field is not empty and ends in a digit.
pub proof fn lemma_field_ends_in_digit(selected: bool, n: nat, width: nat)
    ensures
        selected ==> field(selected, n, width).len() >= 1 && !is_text_whitespace(
            field(selected, n, width).last(),
        ),
        !selected ==> field(selected, n, width).len() == 0,
{
    lemma_decimal_ends_in_digit(n, Seq::empty());
}

} // verus!
