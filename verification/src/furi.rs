//! The furigana text codec.
//!
//! A word or phrase is written in a compact textual form: units joined
//! by a part separator (an ideographic space), and, inside a unit that
//! has a distinct reading, the surface glyphs joined to that reading by
//! a variant separator (a fullwidth vertical bar). Decoding splits that
//! form into a sequence of [`FuriChar`] units; encoding joins it back.

use vstd::prelude::*;
use vstd::string::StringExecFns;
use vstd::string::StrSliceExecFns;

verus! {

/// Separates consecutive units of the textual form: U+3000, the
/// ideographic space.
pub const PARTS_SEPARATOR: char = '\u{3000}';

/// Separates a unit's surface glyphs from their reading: U+FF5C, the
/// fullwidth vertical bar.
pub const VARIANTS_SEPARATOR: char = '\u{ff5c}';

/// Mathematical model of one furigana unit: the two variants of
/// [`FuriChar`] over sequences of characters.
pub enum FuriCharView {
    Kanji { kanji: Seq<char>, kana: Seq<char> },
    Kana { kana: Seq<char> },
}

/// One unit of furigana-annotated text: either a glyph run (`kanji`)
/// with a distinct phonetic reading (`kana`), or phonetic script that
/// already reads as written.
#[derive(Clone, Debug, PartialEq, Eq)]
pub enum FuriChar {
    Kanji { kanji: String, kana: String },
    Kana { kana: String },
}

impl View for FuriChar {
    type V = FuriCharView;

    open spec fn view(&self) -> FuriCharView {
        match self {
            FuriChar::Kanji { kanji, kana } => FuriCharView::Kanji {
                kanji: kanji@,
                kana: kana@,
            },
            FuriChar::Kana { kana } => FuriCharView::Kana { kana: kana@ },
        }
    }
}

/// A word or phrase: an ordered run of furigana units, in left-to-right
/// reading order.
#[derive(Clone, Debug, PartialEq, Eq)]
pub struct FuriString {
    pub chars: Vec<FuriChar>,
}

impl View for FuriString {
    type V = Seq<FuriCharView>;

    open spec fn view(&self) -> Seq<FuriCharView> {
        self.chars@.map_values(|c: FuriChar| c@)
    }
}

/// The phonetic reading of one unit: the `kana` field of either variant.
pub open spec fn spec_char_kana(c: FuriCharView) -> Seq<char> {
    match c {
        FuriCharView::Kanji { kana, .. } => kana,
        FuriCharView::Kana { kana } => kana,
    }
}

/// The surface form of one unit: the glyph run where the unit has a
/// distinct reading, else the reading itself.
pub open spec fn spec_char_kanji_or_kana(c: FuriCharView) -> Seq<char> {
    match c {
        FuriCharView::Kanji { kanji, .. } => kanji,
        FuriCharView::Kana { kana } => kana,
    }
}

/// The full pronunciation of a furigana string: each unit's reading,
/// concatenated in order.
pub open spec fn spec_kana(f: Seq<FuriCharView>) -> Seq<char> {
    f.map_values(|c: FuriCharView| spec_char_kana(c)).flatten()
}

/// The natural surface rendering of a furigana string: each unit's
/// surface form, concatenated in order.
pub open spec fn spec_kanji_or_kana(f: Seq<FuriCharView>) -> Seq<char> {
    f.map_values(|c: FuriCharView| spec_char_kanji_or_kana(c)).flatten()
}

/// Holds when `sep` occurs nowhere in `s`.
pub open spec fn sep_free(s: Seq<char>, sep: char) -> bool {
    forall|i: int| 0 <= i < s.len() ==> s[i] != sep
}

/// Splitting a sequence of characters on a separator: one piece per
/// stretch between separators, so the result has one more piece than
/// the sequence has separators, and never fewer than one.
pub open spec fn spec_split(s: Seq<char>, sep: char) -> Seq<Seq<char>>
    decreases s.len(),
{
    if s.len() == 0 {
        seq![Seq::<char>::empty()]
    } else if s[0] == sep {
        seq![Seq::<char>::empty()] + spec_split(s.drop_first(), sep)
    } else {
        let rest = spec_split(s.drop_first(), sep);
        seq![seq![s[0]] + rest[0]] + rest.drop_first()
    }
}

/// A split always yields at least one piece.
pub proof fn lemma_split_len(s: Seq<char>, sep: char)
    ensures
        spec_split(s, sep).len() >= 1,
    decreases s.len(),
{
    if s.len() == 0 {
    } else {
        lemma_split_len(s.drop_first(), sep);
    }
}

/// A sequence without the separator splits into itself alone.
pub proof fn lemma_split_no_sep(s: Seq<char>, sep: char)
    requires
        sep_free(s, sep),
    ensures
        spec_split(s, sep) == seq![s],
    decreases s.len(),
{
    if s.len() == 0 {
        assert(s =~= Seq::<char>::empty());
        assert(spec_split(s, sep) =~~= seq![s]);
    } else {
        lemma_split_no_sep(s.drop_first(), sep);
        assert(seq![s[0]] + s.drop_first() =~= s);
        assert(spec_split(s, sep) =~~= seq![s]);
    }
}

/// Splitting a sequence of the shape `a ++ sep ++ b`, with `a` free of
/// the separator, yields `a` followed by the split of `b`.
pub proof fn lemma_split_append(a: Seq<char>, b: Seq<char>, sep: char)
    requires
        sep_free(a, sep),
    ensures
        spec_split(a + seq![sep] + b, sep) == seq![a] + spec_split(b, sep),
    decreases a.len(),
{
    let s = a + seq![sep] + b;
    if a.len() == 0 {
        assert(s[0] == sep);
        assert(s.drop_first() =~= b);
        assert(a =~= Seq::<char>::empty());
        assert(spec_split(s, sep) =~~= seq![a] + spec_split(b, sep));
    } else {
        assert(s[0] == a[0]);
        assert(s[0] != sep);
        assert(s.drop_first() =~= a.drop_first() + seq![sep] + b);
        lemma_split_append(a.drop_first(), b, sep);
        let rest = spec_split(s.drop_first(), sep);
        lemma_split_len(b, sep);
        assert(rest[0] == a.drop_first());
        assert(seq![s[0]] + rest[0] =~= a);
        assert(rest.drop_first() =~= spec_split(b, sep));
        assert(spec_split(s, sep) =~~= seq![a] + spec_split(b, sep));
    }
}

/// The structured meaning of one textual unit: two or more pieces
/// around the variant separator make a `Kanji` (surface glyphs, then
/// reading; later pieces are discarded), a single piece is a bare
/// `Kana` reading.
pub open spec fn spec_decode_unit(p: Seq<char>) -> FuriCharView {
    let vs = spec_split(p, VARIANTS_SEPARATOR);
    if vs.len() > 1 {
        FuriCharView::Kanji { kanji: vs[0], kana: vs[1] }
    } else {
        FuriCharView::Kana { kana: vs[0] }
    }
}

/// The structured meaning of a whole textual form: one unit per piece
/// between part separators. Total: every sequence of characters has a
/// meaning, the empty one a single empty `Kana` unit.
pub open spec fn spec_decode(s: Seq<char>) -> Seq<FuriCharView> {
    spec_split(s, PARTS_SEPARATOR).map_values(|p: Seq<char>| spec_decode_unit(p))
}

/// The textual form of one unit: `kanji ++ variant separator ++ kana`
/// for a `Kanji`, the bare reading for a `Kana`.
pub open spec fn spec_encode_unit(c: FuriCharView) -> Seq<char> {
    match c {
        FuriCharView::Kanji { kanji, kana } => kanji + seq![VARIANTS_SEPARATOR] + kana,
        FuriCharView::Kana { kana } => kana,
    }
}

/// The textual form of a whole furigana string: the units' forms
/// joined by the part separator.
pub open spec fn spec_encode(f: Seq<FuriCharView>) -> Seq<char>
    decreases f.len(),
{
    if f.len() == 0 {
        Seq::empty()
    } else if f.len() == 1 {
        spec_encode_unit(f[0])
    } else {
        spec_encode_unit(f[0]) + seq![PARTS_SEPARATOR] + spec_encode(f.drop_first())
    }
}

impl FuriChar {
    /// The unit's phonetic reading.
    pub fn kana(&self) -> (r: String)
        ensures
            r@ == spec_char_kana(self@),
    {
        match self {
            FuriChar::Kanji { kana, .. } => kana.clone(),
            FuriChar::Kana { kana } => kana.clone(),
        }
    }

    /// The unit's surface form.
    pub fn kanji_or_kana(&self) -> (r: String)
        ensures
            r@ == spec_char_kanji_or_kana(self@),
    {
        match self {
            FuriChar::Kanji { kanji, .. } => kanji.clone(),
            FuriChar::Kana { kana } => kana.clone(),
        }
    }
}

/// Relies on String::push: appends the given character to the end of
/// this string.
pub assume_specification[ String::push ](s: &mut String, c: char)
    ensures
        final(s)@ == old(s)@.push(c),
;

/// The characters of a string slice, in order, as a vector.
pub(crate) fn chars_of(text: &str) -> (r: Vec<char>)
    ensures
        r@ == text@,
{
    let n = text.unicode_len();
    let mut r: Vec<char> = Vec::new();
    let mut i: usize = 0;
    while i < n
        invariant
            n == text@.len(),
            i <= n,
            r@ == text@.take(i as int),
        decreases n - i,
    {
        let c = text.get_char(i);
        r.push(c);
        proof {
            assert(text@.take(i + 1) =~= text@.take(i as int).push(text@[i as int]));
        }
        i = i + 1;
    }
    proof {
        assert(text@.take(n as int) =~= text@);
    }
    r
}

/// A string holding exactly the given characters, in order.
pub(crate) fn string_of(v: &Vec<char>) -> (r: String)
    ensures
        r@ == v@,
{
    let mut r = String::new();
    let mut i: usize = 0;
    while i < v.len()
        invariant
            i <= v.len(),
            r@ == v@.take(i as int),
        decreases v.len() - i,
    {
        r.push(v[i]);
        proof {
            assert(v@.take(i + 1) =~= v@.take(i as int).push(v@[i as int]));
        }
        i = i + 1;
    }
    proof {
        assert(v@.take(v.len() as int) =~= v@);
    }
    r
}

/// The views of a vector of character vectors, piece by piece.
spec fn views_of(s: Seq<Vec<char>>) -> Seq<Seq<char>> {
    s.map_values(|p: Vec<char>| p@)
}

/// Splits a vector of characters on a separator, matching
/// [`spec_split`] piece for piece.
fn split_chars(v: &Vec<char>, sep: char) -> (r: Vec<Vec<char>>)
    ensures
        r@.len() == spec_split(v@, sep).len(),
        forall|j: int| 0 <= j < r@.len() ==> r@[j]@ == spec_split(v@, sep)[j],
{
    let mut parts: Vec<Vec<char>> = Vec::new();
    let mut cur: Vec<char> = Vec::new();
    let mut i: usize = 0;
    proof {
        assert(cur@ + v@.skip(0) =~= v@);
        assert(views_of(parts@) =~= Seq::<Seq<char>>::empty());
    }
    while i < v.len()
        invariant
            i <= v.len(),
            sep_free(cur@, sep),
            spec_split(v@, sep) == views_of(parts@) + spec_split(cur@ + v@.skip(i as int), sep),
        decreases v.len() - i,
    {
        let c = v[i];
        proof {
            assert(v@.skip(i as int) =~= seq![v@[i as int]] + v@.skip(i + 1));
        }
        if c == sep {
            proof {
                assert(cur@ + v@.skip(i as int) =~= cur@ + seq![sep] + v@.skip(i + 1));
                lemma_split_append(cur@, v@.skip(i + 1), sep);
                parts@.lemma_push_map_commute(|p: Vec<char>| p@, cur);
                assert(views_of(parts@) + (seq![cur@] + spec_split(v@.skip(i + 1), sep))
                    =~= views_of(parts@.push(cur)) + spec_split(v@.skip(i + 1), sep));
            }
            let finished = cur;
            parts.push(finished);
            cur = Vec::new();
            proof {
                assert(cur@ + v@.skip(i + 1) =~= v@.skip(i + 1));
            }
        } else {
            proof {
                assert((cur@.push(c)) + v@.skip(i + 1) =~= cur@ + v@.skip(i as int));
            }
            cur.push(c);
        }
        i = i + 1;
    }
    proof {
        assert(v@.skip(v.len() as int) =~= Seq::<char>::empty());
        assert(cur@ + v@.skip(v.len() as int) =~= cur@);
        lemma_split_no_sep(cur@, sep);
        parts@.lemma_push_map_commute(|p: Vec<char>| p@, cur);
        assert(views_of(parts@) + seq![cur@] =~= views_of(parts@.push(cur)));
    }
    parts.push(cur);
    proof {
        assert(forall|j: int|
            0 <= j < parts@.len() ==> #[trigger] parts@[j]@ == views_of(parts@)[j]);
    }
    parts
}

/// One textual unit parsed into its structured form.
fn parse_unit(p: &Vec<char>) -> (r: FuriChar)
    ensures
        r@ == spec_decode_unit(p@),
{
    let vs = split_chars(p, VARIANTS_SEPARATOR);
    proof {
        lemma_split_len(p@, VARIANTS_SEPARATOR);
    }
    if vs.len() > 1 {
        FuriChar::Kanji { kanji: string_of(&vs[0]), kana: string_of(&vs[1]) }
    } else {
        FuriChar::Kana { kana: string_of(&vs[0]) }
    }
}

impl FuriString {
    /// Decodes the compact textual form into a furigana string. Total:
    /// every input splits, none is rejected.
    pub fn decode(text: &str) -> (r: FuriString)
        ensures
            r@ == spec_decode(text@),
    {
        let cs = chars_of(text);
        let parts = split_chars(&cs, PARTS_SEPARATOR);
        let ghost pieces = spec_split(text@, PARTS_SEPARATOR);
        let mut chars: Vec<FuriChar> = Vec::new();
        let mut i: usize = 0;
        proof {
            assert(spec_decode(text@).take(0) =~= Seq::<FuriCharView>::empty());
            assert(chars@.map_values(|c: FuriChar| c@) =~= Seq::<FuriCharView>::empty());
        }
        while i < parts.len()
            invariant
                i <= parts.len(),
                pieces == spec_split(text@, PARTS_SEPARATOR),
                parts@.len() == pieces.len(),
                forall|j: int| 0 <= j < parts@.len() ==> parts@[j]@ == pieces[j],
                chars@.map_values(|c: FuriChar| c@) == spec_decode(text@).take(i as int),
            decreases parts.len() - i,
        {
            let fc = parse_unit(&parts[i]);
            proof {
                chars@.lemma_push_map_commute(|c: FuriChar| c@, fc);
                spec_decode(text@).lemma_take_succ_push(i as int);
                assert(spec_decode(text@)[i as int] == spec_decode_unit(pieces[i as int]));
            }
            chars.push(fc);
            i = i + 1;
        }
        proof {
            assert(spec_decode(text@).take(parts.len() as int) =~= spec_decode(text@));
        }
        FuriString { chars }
    }

    /// Encodes a furigana string back into its compact textual form.
    pub fn encode(&self) -> (r: String)
        ensures
            r@ == spec_encode(self@),
    {
        let mut r = String::new();
        let mut i: usize = 0;
        proof {
            assert(self@.take(0) =~= Seq::<FuriCharView>::empty());
        }
        while i < self.chars.len()
            invariant
                i <= self.chars.len(),
                self@.len() == self.chars.len(),
                r@ == spec_encode(self@.take(i as int)),
            decreases self.chars.len() - i,
        {
            if i > 0 {
                r.push(PARTS_SEPARATOR);
            }
            match &self.chars[i] {
                FuriChar::Kanji { kanji, kana } => {
                    r.append(kanji.as_str());
                    r.push(VARIANTS_SEPARATOR);
                    r.append(kana.as_str());
                },
                FuriChar::Kana { kana } => {
                    r.append(kana.as_str());
                },
            }
            proof {
                let pre = self@.take(i as int);
                let u = self@[i as int];
                assert(pre.push(u) =~= self@.take(i + 1));
                if i == 0 {
                    assert(self@.take(1).len() == 1);
                    assert(self@.take(1)[0] == u);
                    assert(r@ =~= spec_encode_unit(u));
                } else {
                    lemma_encode_push(pre, u);
                    assert(r@ =~= spec_encode(pre) + seq![PARTS_SEPARATOR] + spec_encode_unit(u));
                }
            }
            i = i + 1;
        }
        proof {
            assert(self@.take(self.chars.len() as int) =~= self@);
        }
        r
    }
}

/// Appending one unit to a non-empty furigana string appends one part
/// separator and the unit's textual form.
proof fn lemma_encode_push(f: Seq<FuriCharView>, c: FuriCharView)
    requires
        f.len() >= 1,
    ensures
        spec_encode(f.push(c)) == spec_encode(f) + seq![PARTS_SEPARATOR] + spec_encode_unit(c),
    decreases f.len(),
{
    if f.len() == 1 {
        assert(f.push(c).drop_first() =~= seq![c]);
        assert(spec_encode(seq![c]) == spec_encode_unit(c));
        assert(spec_encode(f.push(c)) =~= spec_encode(f) + seq![PARTS_SEPARATOR]
            + spec_encode_unit(c));
    } else {
        assert(f.push(c).drop_first() =~= f.drop_first().push(c));
        lemma_encode_push(f.drop_first(), c);
        assert(spec_encode(f.push(c)) =~= spec_encode(f) + seq![PARTS_SEPARATOR]
            + spec_encode_unit(c));
    }
}

/// A well-formed unit: neither field is empty, and neither separator
/// occurs inside any field.
pub open spec fn spec_char_wf(c: FuriCharView) -> bool {
    match c {
        FuriCharView::Kanji { kanji, kana } => kanji.len() > 0 && kana.len() > 0 && sep_free(
            kanji,
            PARTS_SEPARATOR,
        ) && sep_free(kanji, VARIANTS_SEPARATOR) && sep_free(kana, PARTS_SEPARATOR) && sep_free(
            kana,
            VARIANTS_SEPARATOR,
        ),
        FuriCharView::Kana { kana } => kana.len() > 0 && sep_free(kana, PARTS_SEPARATOR)
            && sep_free(kana, VARIANTS_SEPARATOR),
    }
}

/// A well-formed furigana string: every unit is well-formed.
pub open spec fn spec_wf(f: Seq<FuriCharView>) -> bool {
    forall|i: int| 0 <= i < f.len() ==> spec_char_wf(f[i])
}

/// The textual form of a well-formed unit never contains the part
/// separator.
proof fn lemma_unit_part_free(c: FuriCharView)
    requires
        spec_char_wf(c),
    ensures
        sep_free(spec_encode_unit(c), PARTS_SEPARATOR),
{
}

/// Decoding the textual form of one well-formed unit gives that unit
/// back.
proof fn lemma_decode_encode_unit(c: FuriCharView)
    requires
        spec_char_wf(c),
    ensures
        spec_decode_unit(spec_encode_unit(c)) == c,
{
    match c {
        FuriCharView::Kanji { kanji, kana } => {
            lemma_split_append(kanji, kana, VARIANTS_SEPARATOR);
            lemma_split_no_sep(kana, VARIANTS_SEPARATOR);
            assert(spec_split(spec_encode_unit(c), VARIANTS_SEPARATOR) =~~= seq![kanji, kana]);
        },
        FuriCharView::Kana { kana } => {
            lemma_split_no_sep(kana, VARIANTS_SEPARATOR);
        },
    }
}

/// Round trip, structural direction: decoding the textual form of any
/// non-empty, well-formed furigana string yields that string again.
pub proof fn lemma_decode_encode(f: Seq<FuriCharView>)
    requires
        f.len() >= 1,
        spec_wf(f),
    ensures
        spec_decode(spec_encode(f)) == f,
    decreases f.len(),
{
    if f.len() == 1 {
        lemma_unit_part_free(f[0]);
        lemma_split_no_sep(spec_encode_unit(f[0]), PARTS_SEPARATOR);
        lemma_decode_encode_unit(f[0]);
        assert(spec_decode(spec_encode(f)) =~= f);
    } else {
        let rest = f.drop_first();
        assert(spec_wf(rest)) by {
            assert(forall|i: int| 0 <= i < rest.len() ==> rest[i] == f[i + 1]);
        }
        lemma_unit_part_free(f[0]);
        let u = spec_encode_unit(f[0]);
        let tail = spec_encode(rest);
        let enc = spec_encode(f);
        lemma_split_append(u, tail, PARTS_SEPARATOR);
        lemma_decode_encode(rest);
        lemma_decode_encode_unit(f[0]);
        let sd = spec_decode(enc);
        assert(spec_split(enc, PARTS_SEPARATOR) == seq![u] + spec_split(tail, PARTS_SEPARATOR));
        assert(sd[0] == spec_decode_unit(u));
        assert forall|i: int| 1 <= i < sd.len() implies sd[i] == f[i] by {
            assert(spec_split(enc, PARTS_SEPARATOR)[i] == spec_split(tail, PARTS_SEPARATOR)[i
                - 1]);
            assert(sd[i] == spec_decode_unit(spec_split(tail, PARTS_SEPARATOR)[i - 1]));
            assert(spec_decode(tail)[i - 1] == rest[i - 1]);
            assert(rest[i - 1] == f[i]);
        }
        assert(sd =~= f);
    }
}

/// Round trip, textual direction: any text produced by encoding a
/// non-empty, well-formed furigana string re-encodes to itself after
/// decoding.
pub proof fn lemma_encode_decode(f: Seq<FuriCharView>, s: Seq<char>)
    requires
        f.len() >= 1,
        spec_wf(f),
        s == spec_encode(f),
    ensures
        spec_encode(spec_decode(s)) == s,
{
    lemma_decode_encode(f);
}

/// Appending one unit extends the concatenated reading by that unit's
/// reading.
proof fn lemma_kana_push(f: Seq<FuriCharView>, c: FuriCharView)
    ensures
        spec_kana(f.push(c)) == spec_kana(f) + spec_char_kana(c),
{
    let g = |u: FuriCharView| spec_char_kana(u);
    f.lemma_push_map_commute(g, c);
    f.map_values(g).lemma_flatten_push(g(c));
    assert(spec_kana(f.push(c)) =~= spec_kana(f) + spec_char_kana(c));
}

/// Appending one unit extends the concatenated surface form by that
/// unit's surface form.
proof fn lemma_kanji_or_kana_push(f: Seq<FuriCharView>, c: FuriCharView)
    ensures
        spec_kanji_or_kana(f.push(c)) == spec_kanji_or_kana(f) + spec_char_kanji_or_kana(c),
{
    let g = |u: FuriCharView| spec_char_kanji_or_kana(u);
    f.lemma_push_map_commute(g, c);
    f.map_values(g).lemma_flatten_push(g(c));
    assert(spec_kanji_or_kana(f.push(c)) =~= spec_kanji_or_kana(f) + spec_char_kanji_or_kana(c));
}

impl FuriString {
    /// The full pronunciation: every unit's reading, in order.
    pub fn kana(&self) -> (r: String)
        ensures
            r@ == spec_kana(self@),
    {
        let mut r = String::new();
        let mut i: usize = 0;
        proof {
            assert(self@.take(0) =~= Seq::<FuriCharView>::empty());
            assert(spec_kana(self@.take(0)) =~= Seq::<char>::empty());
        }
        while i < self.chars.len()
            invariant
                i <= self.chars.len(),
                self@.len() == self.chars.len(),
                r@ == spec_kana(self@.take(i as int)),
            decreases self.chars.len() - i,
        {
            let piece = self.chars[i].kana();
            r.append(piece.as_str());
            proof {
                self@.lemma_take_succ_push(i as int);
                lemma_kana_push(self@.take(i as int), self@[i as int]);
                assert(self@.take(i as int).push(self@[i as int]) =~= self@.take(i + 1));
            }
            i = i + 1;
        }
        proof {
            assert(self@.take(self.chars.len() as int) =~= self@);
        }
        r
    }

    /// The natural surface rendering: every unit's surface form, in
    /// order.
    pub fn kanji_or_kana(&self) -> (r: String)
        ensures
            r@ == spec_kanji_or_kana(self@),
    {
        let mut r = String::new();
        let mut i: usize = 0;
        proof {
            assert(self@.take(0) =~= Seq::<FuriCharView>::empty());
            assert(spec_kanji_or_kana(self@.take(0)) =~= Seq::<char>::empty());
        }
        while i < self.chars.len()
            invariant
                i <= self.chars.len(),
                self@.len() == self.chars.len(),
                r@ == spec_kanji_or_kana(self@.take(i as int)),
            decreases self.chars.len() - i,
        {
            let piece = self.chars[i].kanji_or_kana();
            r.append(piece.as_str());
            proof {
                self@.lemma_take_succ_push(i as int);
                lemma_kanji_or_kana_push(self@.take(i as int), self@[i as int]);
                assert(self@.take(i as int).push(self@[i as int]) =~= self@.take(i + 1));
            }
            i = i + 1;
        }
        proof {
            assert(self@.take(self.chars.len() as int) =~= self@);
        }
        r
    }
}

} // verus!
