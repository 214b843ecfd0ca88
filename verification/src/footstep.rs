//! Footsteps: the diagnostic text a node writes after each sampled batch,
//! built from titles and labelled values.

use vstd::prelude::*;
use vstd::string::*;

verus! {

/// The character for a decimal digit below ten.
pub open spec fn digit_char(d: nat) -> char {
    seq!['0', '1', '2', '3', '4', '5', '6', '7', '8', '9'][d as int]
}

/// The decimal digits of `n`, most significant first, without leading zeros.
pub open spec fn decimal_digits(n: nat) -> Seq<char>
    decreases n,
{
    if n < 10 {
        seq![digit_char(n)]
    } else {
        decimal_digits(n / 10).push(digit_char(n % 10))
    }
}

/// The word that spells a boolean.
pub open spec fn bool_word(b: bool) -> Seq<char> {
    if b {
        seq!['t', 'r', 'u', 'e']
    } else {
        seq!['f', 'a', 'l', 's', 'e']
    }
}

/// A text cut to at most `precision` characters, as a precision does to text.
pub open spec fn cut_to(text: Seq<char>, precision: usize) -> Seq<char> {
    if precision < text.len() {
        text.take(precision as int)
    } else {
        text
    }
}

/// A title line: a line break, then the title in square brackets.
pub open spec fn title_line(title: Seq<char>) -> Seq<char> {
    seq!['\n', '['] + title + seq![']']
}

/// A labelled value: a tab, the label, a colon and a space, then the value.
pub open spec fn value_entry(label: Seq<char>, value: Seq<char>) -> Seq<char> {
    seq!['\t'] + label + seq![':', ' '] + value
}

/// The items separated by a comma and a space.
pub open spec fn joined(items: Seq<Seq<char>>) -> Seq<char>
    decreases items.len(),
{
    if items.len() == 0 {
        Seq::empty()
    } else if items.len() == 1 {
        items[0]
    } else {
        joined(items.drop_last()) + seq![',', ' '] + items.last()
    }
}

/// A title line followed by a tab and the items as a bracketed list.
pub open spec fn titled_list(title: Seq<char>, items: Seq<Seq<char>>) -> Seq<char> {
    title_line(title) + seq!['\t', '['] + joined(items) + seq![']']
}

/// A value that a footstep can show: as text at a given precision, and in
/// its form inside lists.
pub trait FootstepValue {
    /// The value as text at `precision`.
    spec fn shown_at(&self, precision: usize) -> Seq<char>;

    /// The value as it appears inside a list.
    spec fn shown_in_list(&self) -> Seq<char>;

    /// The value as text at `precision`.
    fn display_text(&self, precision: usize) -> (text: String)
        ensures
            text@ == self.shown_at(precision),
    ;

    /// The value as it appears inside a list.
    fn debug_text(&self) -> (text: String)
        ensures
            text@ == self.shown_in_list(),
    ;
}

/// The text after each labelled value of `values` has been added in turn,
/// each shown at `precision`, starting from `text`.
pub open spec fn after_each_value<'a, T: FootstepValue>(
    text: Seq<char>,
    precision: usize,
    values: Seq<(&'a str, T)>,
) -> Seq<char>
    decreases values.len(),
{
    if values.len() == 0 {
        text
    } else {
        after_each_value(text, precision, values.drop_last()) + value_entry(
            values.last().0@,
            values.last().1.shown_at(precision),
        )
    }
}

/// The text of a single decimal digit.
fn digit_str(d: u64) -> (s: &'static str)
    requires
        d < 10,
    ensures
        s@ == seq![digit_char(d as nat)],
{
    proof {
        reveal_strlit("0");
        reveal_strlit("1");
        reveal_strlit("2");
        reveal_strlit("3");
        reveal_strlit("4");
        reveal_strlit("5");
        reveal_strlit("6");
        reveal_strlit("7");
        reveal_strlit("8");
        reveal_strlit("9");
    }
    match d {
        0 => "0",
        1 => "1",
        2 => "2",
        3 => "3",
        4 => "4",
        5 => "5",
        6 => "6",
        7 => "7",
        8 => "8",
        _ => "9",
    }
}

/// Appends the decimal digits of `n` to `out`.
fn append_decimal(out: &mut String, n: u64)
    ensures
        final(out)@ == old(out)@ + decimal_digits(n as nat),
    decreases n,
{
    if n >= 10 {
        append_decimal(out, n / 10);
    }
    out.append(digit_str(n % 10));
    proof {
        if n >= 10 {
            assert(decimal_digits(n as nat) == decimal_digits((n / 10) as nat).push(
                digit_char((n % 10) as nat),
            ));
        }
        assert(out@ =~= old(out)@ + decimal_digits(n as nat));
    }
}

/// The decimal digits of `v`, most significant first.
fn decimal_string(v: u64) -> (s: String)
    ensures
        s@ == decimal_digits(v as nat),
{
    let mut s = String::new();
    append_decimal(&mut s, v);
    proof {
        assert(s@ =~= decimal_digits(v as nat));
    }
    s
}

/// The word for `b`, cut to at most `precision` characters.
fn bool_string(b: bool, precision: usize) -> (s: String)
    ensures
        s@ == cut_to(bool_word(b), precision),
{
    let word: &str = if b {
        "true"
    } else {
        "false"
    };
    let len: usize = if b {
        4
    } else {
        5
    };
    proof {
        reveal_strlit("true");
        reveal_strlit("false");
        assert(word@ == bool_word(b));
    }
    let keep: usize = if precision < len {
        precision
    } else {
        len
    };
    let part = word.substring_char(0, keep);
    proof {
        assert(word@.subrange(0, len as int) =~= word@);
    }
    String::from_str(part)
}

impl FootstepValue for u64 {
    /// Decimal digits; a precision does not change an integer.
    open spec fn shown_at(&self, precision: usize) -> Seq<char> {
        decimal_digits(*self as nat)
    }

    open spec fn shown_in_list(&self) -> Seq<char> {
        decimal_digits(*self as nat)
    }

    fn display_text(&self, precision: usize) -> (text: String) {
        decimal_string(*self)
    }

    fn debug_text(&self) -> (text: String) {
        decimal_string(*self)
    }
}

impl FootstepValue for u32 {
    /// Decimal digits; a precision does not change an integer.
    open spec fn shown_at(&self, precision: usize) -> Seq<char> {
        decimal_digits(*self as nat)
    }

    open spec fn shown_in_list(&self) -> Seq<char> {
        decimal_digits(*self as nat)
    }

    fn display_text(&self, precision: usize) -> (text: String) {
        decimal_string(*self as u64)
    }

    fn debug_text(&self) -> (text: String) {
        decimal_string(*self as u64)
    }
}

impl FootstepValue for usize {
    /// Decimal digits; a precision does not change an integer.
    open spec fn shown_at(&self, precision: usize) -> Seq<char> {
        decimal_digits(*self as nat)
    }

    open spec fn shown_in_list(&self) -> Seq<char> {
        decimal_digits(*self as nat)
    }

    fn display_text(&self, precision: usize) -> (text: String) {
        decimal_string(*self as u64)
    }

    fn debug_text(&self) -> (text: String) {
        decimal_string(*self as u64)
    }
}

impl FootstepValue for bool {
    /// The word `true` or `false`, cut to at most `precision` characters.
    open spec fn shown_at(&self, precision: usize) -> Seq<char> {
        cut_to(bool_word(*self), precision)
    }

    open spec fn shown_in_list(&self) -> Seq<char> {
        bool_word(*self)
    }

    fn display_text(&self, precision: usize) -> (text: String) {
        bool_string(*self, precision)
    }

    fn debug_text(&self) -> (text: String) {
        bool_string(*self, 5)
    }
}

/// A value already written out as text (at the precision its writer chose):
/// it is shown as that text, at any precision and inside lists.
pub struct Rendered {
    text: String,
}

impl Rendered {
    /// The text this value is shown as.
    pub closed spec fn spec_text(&self) -> Seq<char> {
        self.text@
    }

    /// A value shown as `text`.
    pub fn new(text: String) -> (rendered: Self)
        ensures
            rendered.spec_text() == text@,
    {
        Rendered { text }
    }
}

impl FootstepValue for Rendered {
    open spec fn shown_at(&self, precision: usize) -> Seq<char> {
        self.spec_text()
    }

    open spec fn shown_in_list(&self) -> Seq<char> {
        self.spec_text()
    }

    fn display_text(&self, precision: usize) -> (text: String) {
        self.text.clone()
    }

    fn debug_text(&self) -> (text: String) {
        self.text.clone()
    }
}

/// The diagnostic text of one report, with the precision at which values
/// are shown unless another is asked for.
pub struct Footstep {
    text: String,
    precision: usize,
}

impl View for Footstep {
    type V = Seq<char>;

    closed spec fn view(&self) -> Seq<char> {
        self.text@
    }
}

impl Footstep {
    /// The precision at which `add_value` shows values.
    pub closed spec fn spec_precision(&self) -> usize {
        self.precision
    }

    /// An empty footstep that shows values at `precision`.
    pub fn new(precision: usize) -> (footstep: Self)
        ensures
            footstep@ == Seq::<char>::empty(),
            footstep.spec_precision() == precision,
    {
        Footstep { text: String::new(), precision: precision }
    }

    /// The precision at which `add_value` shows values.
    pub fn precision(&self) -> (precision: usize)
        ensures
            precision == self.spec_precision(),
    {
        self.precision
    }

    /// Appends `title` on a line of its own, in square brackets.
    pub fn add_title(&mut self, title: &str)
        ensures
            final(self)@ == old(self)@ + title_line(title@),
            final(self).spec_precision() == old(self).spec_precision(),
    {
        proof {
            reveal_strlit("\n[");
            reveal_strlit("]");
        }
        self.text.append("\n[");
        self.text.append(title);
        self.text.append("]");
        proof {
            assert(self.text@ =~= old(self).text@ + title_line(title@));
        }
    }

    /// Appends `title` on a line of its own followed by the list forms of
    /// `value` as a bracketed, comma-separated list.
    pub fn add_title_with_value<T: FootstepValue>(&mut self, title: &str, value: &[T])
        ensures
            final(self)@ == old(self)@ + titled_list(
                title@,
                value@.map_values(|v: T| v.shown_in_list()),
            ),
            final(self).spec_precision() == old(self).spec_precision(),
    {
        proof {
            reveal_strlit("\n[");
            reveal_strlit("]\t[");
            reveal_strlit("]");
        }
        self.text.append("\n[");
        self.text.append(title);
        self.text.append("]\t[");
        let ghost start = self.text@;
        let ghost items = value@.map_values(|v: T| v.shown_in_list());
        let mut i: usize = 0;
        while i < value.len()
            invariant
                i <= value@.len(),
                items == value@.map_values(|v: T| v.shown_in_list()),
                self.text@ == start + joined(items.take(i as int)),
                self.precision == old(self).precision,
                start == old(self).text@ + seq!['\n', '['] + title@ + seq![']', '\t', '['],
            decreases value@.len() - i,
        {
            if i > 0 {
                self.text.append(", ");
            }
            let shown = value[i].debug_text();
            self.text.append(shown.as_str());
            proof {
                let next = items.take(i + 1);
                assert(next.drop_last() =~= items.take(i as int));
                assert(next.last() == shown@);
                if i == 0 {
                    assert(self.text@ =~= start + joined(next));
                } else {
                    reveal_strlit(", ");
                    assert(joined(next) == joined(items.take(i as int)) + seq![',', ' '] + shown@);
                    assert(self.text@ =~= start + joined(next));
                }
            }
            i = i + 1;
        }
        self.text.append("]");
        proof {
            assert(items.take(value@.len() as int) =~= items);
            assert(self.text@ =~= old(self)@ + titled_list(title@, items));
        }
    }

    /// The labelled value as it is written: a tab, the label, a colon and a
    /// space, then the value at `precision`.
    fn create_format<T: FootstepValue>(&self, label: &str, value: &T, precision: usize) -> (entry:
        String)
        ensures
            entry@ == value_entry(label@, value.shown_at(precision)),
    {
        proof {
            reveal_strlit("\t");
            reveal_strlit(": ");
        }
        let shown = value.display_text(precision);
        let mut entry = String::from_str("\t");
        entry.append(label);
        entry.append(": ");
        entry.append(shown.as_str());
        proof {
            assert(entry@ =~= value_entry(label@, shown@));
        }
        entry
    }

    /// Appends `label` and `value` shown at `precision`.
    pub fn add_value_with_precision<T: FootstepValue>(
        &mut self,
        label: &str,
        value: T,
        precision: usize,
    )
        ensures
            final(self)@ == old(self)@ + value_entry(label@, value.shown_at(precision)),
            final(self).spec_precision() == old(self).spec_precision(),
    {
        let entry = self.create_format(label, &value, precision);
        self.text.append(entry.as_str());
    }

    /// Appends `label` and `value` shown at this footstep's precision.
    pub fn add_value<T: FootstepValue>(&mut self, label: &str, value: T)
        ensures
            final(self)@ == old(self)@ + value_entry(
                label@,
                value.shown_at(old(self).spec_precision()),
            ),
            final(self).spec_precision() == old(self).spec_precision(),
    {
        let precision = self.precision;
        let entry = self.create_format(label, &value, precision);
        self.text.append(entry.as_str());
    }

    /// Appends each labelled value in turn, at this footstep's precision:
    /// the same text as one `add_value` per pair, in order.
    pub fn add_values<T: FootstepValue>(&mut self, values: Vec<(&str, T)>)
        ensures
            final(self)@ == after_each_value(old(self)@, old(self).spec_precision(), values@),
            final(self).spec_precision() == old(self).spec_precision(),
    {
        let mut i: usize = 0;
        while i < values.len()
            invariant
                i <= values@.len(),
                self.text@ == after_each_value(
                    old(self).text@,
                    self.precision,
                    values@.take(i as int),
                ),
                self.precision == old(self).precision,
            decreases values@.len() - i,
        {
            let entry = self.create_format(values[i].0, &values[i].1, self.precision);
            self.text.append(entry.as_str());
            proof {
                let next = values@.take(i + 1);
                assert(next.drop_last() =~= values@.take(i as int));
                assert(next.last() == values@[i as int]);
                assert(self.text@ =~= after_each_value(old(self).text@, self.precision, next));
            }
            i = i + 1;
        }
        proof {
            assert(values@.take(values@.len() as int) =~= values@);
        }
    }

    /// The text written so far.
    pub fn print(&self) -> (text: String)
        ensures
            text@ == self@,
    {
        self.text.clone()
    }
}

/// Adding values one pair at a time: no pairs leave the text as it is, and
/// one more pair appends exactly what `add_value` appends for it.
pub proof fn lemma_values_added_one_by_one<'a, T: FootstepValue>(
    text: Seq<char>,
    precision: usize,
    values: Seq<(&'a str, T)>,
    label: &'a str,
    value: T,
)
    ensures
        after_each_value(text, precision, Seq::<(&'a str, T)>::empty()) == text,
        after_each_value(text, precision, values.push((label, value))) == after_each_value(
            text,
            precision,
            values,
        ) + value_entry(label@, value.shown_at(precision)),
{
    assert(values.push((label, value)).drop_last() =~= values);
}

/// The number a single decimal digit character stands for.
pub open spec fn digit_value(c: char) -> nat {
    if c == '1' {
        1
    } else if c == '2' {
        2
    } else if c == '3' {
        3
    } else if c == '4' {
        4
    } else if c == '5' {
        5
    } else if c == '6' {
        6
    } else if c == '7' {
        7
    } else if c == '8' {
        8
    } else if c == '9' {
        9
    } else {
        0
    }
}

/// A character that is one of the ten decimal digits.
pub open spec fn is_digit(c: char) -> bool {
    '0' <= c <= '9'
}

/// The number that a string of decimal digits, most significant first,
/// stands for.
pub open spec fn digits_value(digits: Seq<char>) -> nat
    decreases digits.len(),
{
    if digits.len() == 0 {
        0
    } else {
        digits_value(digits.drop_last()) * 10 + digit_value(digits.last())
    }
}

proof fn lemma_digit_char(d: nat)
    requires
        d < 10,
    ensures
        is_digit(digit_char(d)),
        digit_value(digit_char(d)) == d,
        d > 0 ==> digit_char(d) != '0',
{
    if d == 0 {
    } else if d == 1 {
    } else if d == 2 {
    } else if d == 3 {
    } else if d == 4 {
    } else if d == 5 {
    } else if d == 6 {
    } else if d == 7 {
    } else if d == 8 {
    } else {
    }
}

/// The decimal text of `n` is made of decimal digits only, stands for `n`
/// itself, and has no leading zero (zero is the single digit `0`).
pub proof fn lemma_decimal_digits_spell_the_number(n: nat)
    ensures
        decimal_digits(n).len() >= 1,
        forall|i: int| 0 <= i < decimal_digits(n).len() ==> is_digit(#[trigger] decimal_digits(n)[i]),
        digits_value(decimal_digits(n)) == n,
        n > 0 ==> decimal_digits(n)[0] != '0',
        n == 0 ==> decimal_digits(n) == seq!['0'],
    decreases n,
{
    if n < 10 {
        lemma_digit_char(n);
        let s = decimal_digits(n);
        assert(s.drop_last() =~= Seq::<char>::empty());
        assert(s.last() == digit_char(n));
        assert(digits_value(s) == digits_value(s.drop_last()) * 10 + digit_value(s.last()));
    } else {
        lemma_decimal_digits_spell_the_number(n / 10);
        lemma_digit_char(n % 10);
        let s = decimal_digits(n);
        assert(s.drop_last() =~= decimal_digits(n / 10));
        assert(s.last() == digit_char(n % 10));
        assert(digits_value(s) == digits_value(s.drop_last()) * 10 + digit_value(s.last()));
        assert(digits_value(s) == (n / 10) * 10 + n % 10);
    }
}

/// However it is asked, with any precision and inside lists, an unsigned
/// integer of any width is shown as all of its decimal digits.
pub proof fn lemma_integers_shown_in_full(a: u64, b: u32, c: usize, precision: usize)
    ensures
        a.shown_at(precision) == decimal_digits(a as nat),
        a.shown_in_list() == decimal_digits(a as nat),
        b.shown_at(precision) == decimal_digits(b as nat),
        b.shown_in_list() == decimal_digits(b as nat),
        c.shown_at(precision) == decimal_digits(c as nat),
        c.shown_in_list() == decimal_digits(c as nat),
        digits_value(c.shown_at(precision)) == c,
        digits_value(b.shown_at(precision)) == b,
        digits_value(a.shown_at(precision)) == a,
{
    lemma_decimal_digits_spell_the_number(a as nat);
    lemma_decimal_digits_spell_the_number(b as nat);
    lemma_decimal_digits_spell_the_number(c as nat);
}

/// A truth value is shown as the word `true` or `false`, cut to the
/// precision, and in full inside lists.
pub proof fn lemma_bools_shown_as_words(b: bool, precision: usize)
    ensures
        b.shown_in_list() == (if b {
            seq!['t', 'r', 'u', 'e']
        } else {
            seq!['f', 'a', 'l', 's', 'e']
        }),
        precision >= 5 ==> b.shown_at(precision) == b.shown_in_list(),
        b.shown_at(precision).len() == if precision < b.shown_in_list().len() {
            precision as int
        } else {
            b.shown_in_list().len() as int
        },
        b.shown_at(precision) =~= b.shown_in_list().take(b.shown_at(precision).len() as int),
{
}

} // verus!
