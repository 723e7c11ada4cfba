//! The code generator's output sink: an append-only text buffer with
//! indentation bookkeeping, plus the CamelCase to snake_case name transform
//! that derives module and file names from table names.

use vstd::prelude::*;

verus! {

pub open spec fn is_upper(c: char) -> bool {
    'A' <= c <= 'Z'
}

pub open spec fn is_lower(c: char) -> bool {
    'a' <= c <= 'z'
}

pub open spec fn is_digit(c: char) -> bool {
    '0' <= c <= '9'
}

/// An uppercase letter mapped to lowercase; everything else unchanged.
pub open spec fn to_lower(c: char) -> char {
    if is_upper(c) {
        (((c as u8) + 32) as u8) as char
    } else {
        c
    }
}

/// Whether an underscore is inserted before position `i`: an uppercase
/// letter that follows a lowercase letter or a digit, or an uppercase
/// letter that is followed by a lowercase letter and preceded by another
/// uppercase letter.
pub open spec fn snake_boundary(s: Seq<char>, i: int) -> bool {
    &&& is_upper(s[i])
    &&& 0 < i < s.len()
    &&& {
        ||| is_lower(s[i - 1])
        ||| is_digit(s[i - 1])
        ||| (is_upper(s[i - 1]) && i + 1 < s.len() && is_lower(s[i + 1]))
    }
}

/// What position `i` contributes: its lowercased character, preceded by an
/// underscore at a word boundary.
pub open spec fn snake_piece(s: Seq<char>, i: int) -> Seq<char> {
    if snake_boundary(s, i) {
        seq!['_', to_lower(s[i])]
    } else {
        seq![to_lower(s[i])]
    }
}

/// The transform of the first `n` characters.
pub open spec fn snake_of_upto(s: Seq<char>, n: int) -> Seq<char>
    decreases n,
{
    if n <= 0 {
        Seq::empty()
    } else {
        snake_of_upto(s, n - 1) + snake_piece(s, n - 1)
    }
}

/// The CamelCase to snake_case transform: insert `_` at word boundaries,
/// then lowercase. Underscores already present are preserved.
pub open spec fn snake_of(s: Seq<char>) -> Seq<char> {
    snake_of_upto(s, s.len() as int)
}

/// The transform emits only ASCII when fed ASCII.
pub proof fn lemma_snake_ascii(s: Seq<char>, n: int)
    requires
        vstd::utf8::is_ascii_chars(s),
        n <= s.len(),
    ensures
        vstd::utf8::is_ascii_chars(snake_of_upto(s, n)),
    decreases n,
{
    if n <= 0 {
        assert(vstd::utf8::is_ascii_chars(snake_of_upto(s, n)));
    } else {
        lemma_snake_ascii(s, n - 1);
        assert(vstd::utf8::is_ascii_chars(snake_of_upto(s, n))) by {
            assert forall|i: int| 0 <= i < snake_of_upto(s, n).len() implies '\0'
                <= #[trigger] snake_of_upto(s, n)[i] <= '\u{7f}' by {
                if i >= snake_of_upto(s, n - 1).len() {
                    assert('\0' <= s[n - 1] <= '\u{7f}');
                }
            }
        }
    }
}

/// The transform never emits an uppercase letter.
pub proof fn lemma_snake_no_upper(s: Seq<char>, n: int)
    requires
        n <= s.len(),
    ensures
        forall|i: int|
            0 <= i < snake_of_upto(s, n).len() ==> !is_upper(#[trigger] snake_of_upto(s, n)[i]),
    decreases n,
{
    if n > 0 {
        lemma_snake_no_upper(s, n - 1);
        assert forall|i: int| 0 <= i < snake_of_upto(s, n).len() implies !is_upper(
            #[trigger] snake_of_upto(s, n)[i],
        ) by {
            if i < snake_of_upto(s, n - 1).len() {
            } else {
                assert(snake_of_upto(s, n)[i] == snake_piece(s, n - 1)[i - snake_of_upto(
                    s,
                    n - 1,
                ).len()]);
            }
        }
    }
}

/// On text without uppercase letters the transform is the identity.
pub proof fn lemma_snake_id(t: Seq<char>, n: int)
    requires
        0 <= n <= t.len(),
        forall|i: int| 0 <= i < t.len() ==> !is_upper(#[trigger] t[i]),
    ensures
        snake_of_upto(t, n) == t.take(n),
    decreases n,
{
    if n == 0 {
        assert(snake_of_upto(t, 0) =~= t.take(0));
    } else {
        lemma_snake_id(t, n - 1);
        assert(!is_upper(t[n - 1]));
        assert(snake_piece(t, n - 1) =~= seq![t[n - 1]]);
        assert(snake_of_upto(t, n) =~= t.take(n));
    }
}

/// The snake-case transform is idempotent: applying it twice yields the
/// same text as applying it once.
pub proof fn lemma_snake_idempotent(s: Seq<char>)
    ensures
        snake_of(snake_of(s)) == snake_of(s),
{
    let t = snake_of(s);
    lemma_snake_no_upper(s, s.len() as int);
    lemma_snake_id(t, t.len() as int);
    assert(t.take(t.len() as int) =~= t);
}

/// The character codes of ASCII text.
pub open spec fn ascii_codes(cs: Seq<char>) -> Seq<u8> {
    cs.map_values(|c: char| c as u8)
}

/// Applies the snake-case transform to an ASCII name.
#[verifier::loop_isolation(false)]
pub fn snake_case(s: &str) -> (r: String)
    requires
        s.is_ascii(),
    ensures
        r@ == snake_of(s@),
{
    let n: usize = s.unicode_len();
    let mut out: Vec<u8> = Vec::new();
    proof {
        assert(ascii_codes(snake_of_upto(s@, 0)) =~= Seq::<u8>::empty());
    }
    let mut i: usize = 0;
    while i < n
        invariant
            0 <= i <= n,
            n == s@.len(),
            out@ == ascii_codes(snake_of_upto(s@, i as int)),
        decreases n - i,
    {
        let c = s.get_ascii(i);
        let prev: u8 = if i > 0 {
            s.get_ascii(i - 1)
        } else {
            0
        };
        let next: u8 = if i + 1 < n {
            s.get_ascii(i + 1)
        } else {
            0
        };
        let upper = 65 <= c && c <= 90;
        let boundary = upper && i > 0 && ((97 <= prev && prev <= 122) || (48 <= prev && prev <= 57)
            || ((65 <= prev && prev <= 90) && i + 1 < n && 97 <= next && next <= 122));
        proof {
            assert('\0' <= s@[i as int] <= '\u{7f}');
            assert(c == s@[i as int] as u8);
            assert(upper == is_upper(s@[i as int]));
            if i > 0 {
                assert('\0' <= s@[i as int - 1] <= '\u{7f}');
                assert((97 <= prev && prev <= 122) == is_lower(s@[i as int - 1]));
                assert((48 <= prev && prev <= 57) == is_digit(s@[i as int - 1]));
                assert((65 <= prev && prev <= 90) == is_upper(s@[i as int - 1]));
            }
            if i + 1 < n {
                assert('\0' <= s@[i as int + 1] <= '\u{7f}');
                assert((97 <= next && next <= 122) == is_lower(s@[i as int + 1]));
            }
            assert(boundary == snake_boundary(s@, i as int));
        }
        if boundary {
            out.push(95);
        }
        let lowered: u8 = if upper {
            c + 32
        } else {
            c
        };
        out.push(lowered);
        proof {
            assert(lowered == to_lower(s@[i as int]) as u8);
            assert('_' as u8 == 95);
            assert(out@ =~= ascii_codes(snake_of_upto(s@, i as int + 1)));
        }
        i = i + 1;
    }
    proof {
        lemma_snake_ascii(s@, n as int);
        vstd::utf8::is_ascii_chars_encode_utf8(snake_of(s@));
        assert(out@ =~= vstd::utf8::encode_utf8(snake_of(s@)));
        vstd::utf8::encode_utf8_valid_utf8(snake_of(s@));
    }
    match crate::util::string_from_utf8(out) {
        Some(r) => {
            proof {
                vstd::utf8::encode_utf8_decode_utf8(r@);
                vstd::utf8::encode_utf8_decode_utf8(snake_of(s@));
            }
            r
        },
        None => {
            proof {
                assert(false);
            }
            vstd::pervasive::unreached()
        },
    }
}

/// The text emitted for one indentation level.
pub open spec fn ind_text(n: int) -> Seq<char>
    decreases n,
{
    if n <= 0 {
        Seq::empty()
    } else {
        ind_text(n - 1) + "    "@
    }
}

/// An append-only text buffer for one generated file, tracking the current
/// indentation depth and the table name the file is generated for.
pub struct Writer {
    pub buf: String,
    pub indent: usize,
    pub name: String,
}

impl Writer {
    /// An empty buffer for the table called `name`.
    pub fn new(name: &str) -> (r: Writer)
        ensures
            r.buf@ == Seq::<char>::empty(),
            r.indent == 0,
            r.name@ == name@,
    {
        Writer { buf: String::new(), indent: 0, name: name.to_owned() }
    }

    /// Appends the current indentation.
    #[verifier::loop_isolation(false)]
    fn push_indent(&mut self)
        ensures
            final(self).buf@ == old(self).buf@ + ind_text(old(self).indent as int),
            final(self).indent == old(self).indent,
            final(self).name == old(self).name,
    {
        let ghost buf0 = old(self).buf@;
        let n: usize = self.indent;
        let mut i: usize = 0;
        proof {
            assert(self.buf@ =~= buf0 + ind_text(0));
        }
        while i < n
            invariant
                0 <= i <= n,
                n == self.indent,
                self.buf@ == buf0 + ind_text(i as int),
                self.name == old(self).name,
            decreases n - i,
        {
            self.buf.append("    ");
            i = i + 1;
        }
    }

    /// Emits one indented line, with its trailing newline.
    pub fn wln(&mut self, line: &str)
        ensures
            final(self).buf@ == old(self).buf@ + ind_text(old(self).indent as int) + line@
                + "\n"@,
            final(self).indent == old(self).indent,
            final(self).name == old(self).name,
    {
        self.push_indent();
        self.buf.append(line);
        self.buf.append("\n");
    }

    /// Emits a blank line.
    pub fn newline(&mut self)
        ensures
            final(self).buf@ == old(self).buf@ + "\n"@,
            final(self).indent == old(self).indent,
            final(self).name == old(self).name,
    {
        self.buf.append("\n");
    }

    /// Emits `header {` and indents one level deeper.
    pub fn open_block(&mut self, header: &str)
        requires
            old(self).indent < 1000,
        ensures
            final(self).buf@ == old(self).buf@ + ind_text(old(self).indent as int) + header@
                + " {"@ + "\n"@,
            final(self).indent == old(self).indent + 1,
            final(self).name == old(self).name,
    {
        self.push_indent();
        self.buf.append(header);
        self.buf.append(" {");
        self.buf.append("\n");
        self.indent = self.indent + 1;
    }

    /// Dedents one level and emits the closing `}`. Indentation can never
    /// go below zero: a close without a matching open is ruled out here.
    pub fn close_block(&mut self)
        requires
            old(self).indent >= 1,
        ensures
            final(self).buf@ == old(self).buf@ + ind_text(old(self).indent - 1) + "}"@ + "\n"@,
            final(self).indent == old(self).indent - 1,
            final(self).name == old(self).name,
    {
        self.indent = self.indent - 1;
        self.push_indent();
        self.buf.append("}");
        self.buf.append("\n");
    }

    /// Dedents, closes the block and leaves a blank separator line.
    pub fn closen_block(&mut self)
        requires
            old(self).indent >= 1,
        ensures
            final(self).buf@ == old(self).buf@ + ind_text(old(self).indent - 1) + "}"@ + "\n"@
                + "\n"@,
            final(self).indent == old(self).indent - 1,
            final(self).name == old(self).name,
    {
        self.close_block();
        self.newline();
    }

    /// Finalizes the buffer and hands back the assembled text.
    pub fn inner(self) -> (r: String)
        ensures
            r@ == self.buf@,
    {
        self.buf
    }

    /// The module name derived from the table name.
    pub fn module_name(&self) -> (r: String)
        requires
            vstd::utf8::is_ascii_chars(self.name@),
        ensures
            r@ == snake_of(self.name@),
    {
        snake_case(self.name.as_str())
    }

    /// The file name of the generated module.
    pub fn file_name(&self) -> (r: String)
        requires
            vstd::utf8::is_ascii_chars(self.name@),
        ensures
            r@ == snake_of(self.name@) + ".rs"@,
    {
        self.module_name().concat(".rs")
    }
}

} // verus!
