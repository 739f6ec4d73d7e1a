//! Word extraction from page text and export of the vocabulary list.
use vstd::prelude::*;
use crate::db::Word;
use crate::error::ShuseiError;
use crate::json::{JsonScalar, JsonScalarModel, to_pretty_json, pretty_json_text, record_model, records_model};
use crate::text::{decimal, joined, is_white_space, separates, lemma_split_by_append_piece, lemma_split_by_pieces_have_no_separator, lemma_trim_chars_from, push_decimal, push_str, utf8_len, utf8_width_of, lemma_utf8_len_prefix_monotone, lemma_utf8_len_encode, Separator, chars_of, contains, separator_fn, split_by, split_chars, string_from_chars, trim, trim_bounds, chars_contain};

verus! {

/// An entry of the vocabulary list.
#[derive(Debug, Clone, PartialEq)]
pub struct VocabularyEntry {
    pub id: i64,
    pub word: String,
    pub meaning: Option<String>,
    pub example_sentence: Option<String>,
    pub source_book: Option<String>,
    pub source_page: Option<i32>,
    pub tags: Option<String>,
    pub created_at: String,
    pub review_count: i32,
    pub last_reviewed_at: Option<String>,
}

/// A vocabulary entry to create.
#[derive(Debug, Clone, Default)]
pub struct NewVocabularyEntry {
    pub word: String,
    pub meaning: Option<String>,
    pub example_sentence: Option<String>,
    pub source_book: Option<String>,
    pub source_page: Option<i32>,
    pub tags: Option<String>,
}

/// Part-of-speech classes.
#[derive(Debug, Clone, Copy, PartialEq, Eq, Structural)]
pub enum PartOfSpeech {
    Noun,
    Verb,
    Adjective,
    Adverb,
    Particle,
    Unknown,
}

/// The Japanese name of a part of speech.
pub open spec fn pos_label(p: PartOfSpeech) -> Seq<char> {
    match p {
        PartOfSpeech::Noun => "名詞"@,
        PartOfSpeech::Verb => "動詞"@,
        PartOfSpeech::Adjective => "形容詞"@,
        PartOfSpeech::Adverb => "副詞"@,
        PartOfSpeech::Particle => "助詞"@,
        PartOfSpeech::Unknown => "不明"@,
    }
}

impl PartOfSpeech {
    /// The Japanese name of the part of speech, as it is displayed.
    pub fn label(&self) -> (s: String)
        ensures
            s@ == pos_label(*self),
    {
        match self {
            PartOfSpeech::Noun => "名詞".to_owned(),
            PartOfSpeech::Verb => "動詞".to_owned(),
            PartOfSpeech::Adjective => "形容詞".to_owned(),
            PartOfSpeech::Adverb => "副詞".to_owned(),
            PartOfSpeech::Particle => "助詞".to_owned(),
            PartOfSpeech::Unknown => "不明".to_owned(),
        }
    }
}

/// A word extracted from text.
#[derive(Debug, Clone)]
pub struct ExtractedWord {
    /// The word, lowercased.
    pub word: String,
    /// Its part of speech.
    pub pos: PartOfSpeech,
    /// Whether it is a foreign (English) word.
    pub is_foreign: bool,
}

/// Formats of the vocabulary export.
#[derive(Debug, Clone, Copy, PartialEq, Eq, Structural)]
pub enum ExportFormat {
    Markdown,
    Csv,
    Json,
}

/// What `char::is_alphabetic` answers for a character (the Unicode
/// `Alphabetic` property).
pub uninterp spec fn alphabetic(c: char) -> bool;

/// What `str::to_lowercase` gives for a text (full Unicode lowercase mapping).
pub uninterp spec fn lowercase(s: Seq<char>) -> Seq<char>;

/// Calls `char::is_alphabetic`; the answer is named, not spelled out.
#[verifier::external_body]
fn char_is_alphabetic(c: char) -> (b: bool)
    ensures
        b == alphabetic(c),
{
    c.is_alphabetic()
}

/// Calls `str::to_lowercase`; the result is named, not spelled out.
#[verifier::external_body]
pub(crate) fn str_to_lowercase(s: &str) -> (r: String)
    ensures
        r@ == lowercase(s@),
{
    s.to_lowercase()
}

/// Whether some character of `s` is ASCII.
pub open spec fn has_ascii(s: Seq<char>) -> bool {
    exists|i: int| 0 <= i < s.len() && (s[i] as u32) < 128
}

/// Whether every character of `s` is alphabetic.
pub open spec fn all_alphabetic(s: Seq<char>) -> bool {
    forall|i: int| 0 <= i < s.len() ==> alphabetic(#[trigger] s[i])
}

/// Whether a whitespace-separated token is kept as an English word: longer
/// than two bytes in UTF-8 and made of letters only.
pub open spec fn is_english_token(t: Seq<char>) -> bool {
    vstd::utf8::encode_utf8(t).len() > 2 && all_alphabetic(t)
}

/// Whether the UTF-8 encoding of `t` is longer than two bytes (`str::len() > 2`).
fn longer_than_two_bytes(t: &[char]) -> (b: bool)
    ensures
        b == (vstd::utf8::encode_utf8(t@).len() > 2),
{
    let mut total: usize = 0;
    let mut i: usize = 0;
    while i < t.len()
        invariant
            i <= t@.len(),
            total <= 2,
            total == utf8_len(t@.subrange(0, i as int)),
        decreases t.len() - i,
    {
        assert(t@.subrange(0, i + 1).drop_last() =~= t@.subrange(0, i as int));
        let w = utf8_width_of(t[i]);
        if total + w > 2 {
            proof {
                lemma_utf8_len_prefix_monotone(t@, i + 1);
                lemma_utf8_len_encode(t@);
            }
            return true;
        }
        total = total + w;
        i = i + 1;
    }
    assert(t@.subrange(0, t@.len() as int) =~= t@);
    proof {
        lemma_utf8_len_encode(t@);
    }
    false
}

/// The kept tokens, lowercased, in order.
pub open spec fn english_words_of(tokens: Seq<Seq<char>>) -> Seq<Seq<char>>
    decreases tokens.len(),
{
    if tokens.len() == 0 {
        Seq::<Seq<char>>::empty()
    } else {
        let rest = english_words_of(tokens.drop_last());
        if is_english_token(tokens.last()) {
            rest.push(lowercase(tokens.last()))
        } else {
            rest
        }
    }
}

/// The English words of a text: its whitespace-separated tokens that are
/// longer than two bytes and alphabetic, lowercased.
pub open spec fn english_words(text: Seq<char>) -> Seq<Seq<char>> {
    english_words_of(split_by(text, separator_fn(Separator::Whitespace)))
}

/// The words that `WordExtractor::extract_words` extracts from a text:
/// the English words where the text holds an ASCII character, none otherwise.
pub open spec fn extracted_words(text: Seq<char>) -> Seq<Seq<char>> {
    if has_ascii(text) {
        english_words(text)
    } else {
        Seq::<Seq<char>>::empty()
    }
}

/// Whether `ws` are these words, each an unknown part of speech marked foreign.
pub open spec fn are_foreign_words(ws: Seq<ExtractedWord>, words: Seq<Seq<char>>) -> bool {
    &&& ws.len() == words.len()
    &&& forall|i: int|
        0 <= i < ws.len() ==> {
            &&& (#[trigger] ws[i]).word@ == words[i]
            &&& ws[i].pos == PartOfSpeech::Unknown
            &&& ws[i].is_foreign
        }
}

/// The pieces of a text between sentence terminators.
pub open spec fn sentences(text: Seq<char>) -> Seq<Seq<char>> {
    split_by(text, separator_fn(Separator::SentenceEnd))
}

/// The index of the first sentence, from index `k` on, that contains `word`.
pub open spec fn first_sentence_with(ss: Seq<Seq<char>>, word: Seq<char>, k: int) -> Option<int>
    decreases ss.len() - k,
{
    if k < 0 || k >= ss.len() {
        None
    } else if contains(ss[k], word) {
        Some(k)
    } else {
        first_sentence_with(ss, word, k + 1)
    }
}

/// The sentence that `WordExtractor::extract_sentence` gives: the first
/// piece between terminators that contains the word, trimmed.
pub open spec fn sentence_with(text: Seq<char>, word: Seq<char>) -> Option<Seq<char>> {
    match first_sentence_with(sentences(text), word, 0) {
        Some(k) => Some(trim(sentences(text)[k])),
        None => None,
    }
}

proof fn lemma_first_sentence_with_found(ss: Seq<Seq<char>>, word: Seq<char>, k: int)
    ensures
        first_sentence_with(ss, word, k) matches Some(i) ==> 0 <= k <= i < ss.len() && contains(ss[i], word),
    decreases ss.len() - k,
{
    if 0 <= k < ss.len() && !contains(ss[k], word) {
        lemma_first_sentence_with_found(ss, word, k + 1);
    }
}

/// A sentence found for a word never holds a sentence terminator: each of
/// `。`, `.`, `！` and `!` ends a sentence.
pub proof fn lemma_sentence_has_no_terminator(text: Seq<char>, word: Seq<char>)
    ensures
        sentence_with(text, word) matches Some(s) ==> forall|i: int|
            0 <= i < s.len() ==> #[trigger] s[i] != '。' && s[i] != '.' && s[i] != '！' && s[i] != '!',
{
    let ss = sentences(text);
    lemma_first_sentence_with_found(ss, word, 0);
    if let Some(k) = first_sentence_with(ss, word, 0) {
        let sep = separator_fn(Separator::SentenceEnd);
        lemma_split_by_pieces_have_no_separator(text, sep);
        let piece = ss[k];
        lemma_trim_chars_from(piece);
        let s = trim(piece);
        assert forall|i: int| 0 <= i < s.len() implies #[trigger] s[i] != '。' && s[i] != '.' && s[i] != '！'
            && s[i] != '!' by {
            let j = choose|j: int| 0 <= j < piece.len() && piece[j] == s[i];
            assert(!sep(split_by(text, sep)[k][j]));
        }
    }
}

/// The last token of a text is looked at like every other: appending a
/// space and a word of more than two bytes, letters only and no white
/// space, appends that word, lowercased, to the English words; and to the
/// extracted words of a text that holds an ASCII character.
pub proof fn lemma_last_token_extracted(t: Seq<char>, w: Seq<char>)
    requires
        vstd::utf8::encode_utf8(w).len() > 2,
        forall|i: int| 0 <= i < w.len() ==> alphabetic(#[trigger] w[i]),
        forall|i: int| 0 <= i < w.len() ==> !is_white_space(#[trigger] w[i]),
    ensures
        english_words(t + " "@ + w) == english_words(t).push(lowercase(w)),
        has_ascii(t) ==> extracted_words(t + " "@ + w) == extracted_words(t).push(lowercase(w)),
{
    reveal_strlit(" ");
    let sep = separator_fn(Separator::Whitespace);
    assert(t + " "@ + w =~= t.push(' ') + w);
    assert(sep(' '));
    assert forall|i: int| 0 <= i < w.len() implies !sep(#[trigger] w[i]) by {
        assert(!is_white_space(w[i]));
    }
    lemma_split_by_append_piece(t, ' ', w, sep);
    let tokens = split_by(t, sep);
    assert(tokens.push(w).drop_last() =~= tokens);
    assert(is_english_token(w));
    let full = t + " "@ + w;
    assert(full[t.len() as int] == ' ');
    assert(has_ascii(full));
}

/// The columns of the CSV export of vocabulary entries, in order.
pub open spec fn csv_entry_columns() -> Seq<Seq<char>> {
    seq!["word"@, "meaning"@, "example_sentence"@, "source_book"@, "source_page"@, "tags"@]
}

/// The text of an entry's field that a CSV column of this name holds.
pub open spec fn entry_field(e: VocabularyEntry, column: Seq<char>) -> Seq<char> {
    if column == "word"@ {
        e.word@
    } else if column == "meaning"@ {
        text_or_empty(e.meaning)
    } else if column == "example_sentence"@ {
        text_or_empty(e.example_sentence)
    } else if column == "source_book"@ {
        text_or_empty(e.source_book)
    } else if column == "source_page"@ {
        decimal(page_or_zero(e.source_page))
    } else if column == "tags"@ {
        text_or_empty(e.tags)
    } else {
        Seq::<char>::empty()
    }
}

#[verifier::spinoff_prover]
proof fn lemma_csv_header_lists_columns()
    ensures
        csv_entries_header() == joined(csv_entry_columns(), ","@) + "\n"@,
{
    reveal_strlit("word");
    reveal_strlit("meaning");
    reveal_strlit("example_sentence");
    reveal_strlit("source_book");
    reveal_strlit("source_page");
    reveal_strlit("tags");
    reveal_strlit(",");
    reveal_strlit("\n");
    reveal_strlit("word,meaning,example_sentence,source_book,source_page,tags\n");
    let cols = csv_entry_columns();
    assert(cols.drop_last().drop_last().drop_last().drop_last().drop_last() =~= seq!["word"@]);
    reveal_with_fuel(joined, 7);
    assert(csv_entries_header() =~= joined(cols, ","@) + "\n"@);
}

#[verifier::spinoff_prover]
proof fn lemma_entry_fields_by_column(e: VocabularyEntry)
    ensures
        csv_entry_columns().map_values(|c: Seq<char>| entry_field(e, c)) == seq![
            e.word@,
            text_or_empty(e.meaning),
            text_or_empty(e.example_sentence),
            text_or_empty(e.source_book),
            decimal(page_or_zero(e.source_page)),
            text_or_empty(e.tags),
        ],
{
    reveal_strlit("word");
    reveal_strlit("meaning");
    reveal_strlit("example_sentence");
    reveal_strlit("source_book");
    reveal_strlit("source_page");
    reveal_strlit("tags");
    assert("word"@[0] == 'w' && "meaning"@[0] == 'm' && "example_sentence"@[0] == 'e');
    assert("source_book"@[0] == 's' && "source_page"@[0] == 's' && "tags"@[0] == 't');
    assert("meaning"@ != "word"@);
    assert("example_sentence"@ != "word"@ && "example_sentence"@ != "meaning"@);
    assert("source_page"@[7] != "source_book"@[7]);
    assert("tags"@[0] != "word"@[0] && "tags"@[0] != "source_book"@[0]);
    assert(csv_entry_columns().map_values(|c: Seq<char>| entry_field(e, c)) =~= seq![
        e.word@,
        text_or_empty(e.meaning),
        text_or_empty(e.example_sentence),
        text_or_empty(e.source_book),
        decimal(page_or_zero(e.source_page)),
        text_or_empty(e.tags),
    ]);
}

/// The CSV export names its columns in its header, and each entry's line
/// holds, in double quotes and in the header's order, the field each
/// column names.
#[verifier::spinoff_prover]
pub proof fn lemma_csv_line_follows_header(e: VocabularyEntry)
    ensures
        csv_entries_header() == joined(csv_entry_columns(), ","@) + "\n"@,
        csv_entry_line(e) == "\""@ + joined(
            csv_entry_columns().map_values(|c: Seq<char>| entry_field(e, c)),
            "\",\""@,
        ) + "\"\n"@,
{
    lemma_csv_header_lists_columns();
    lemma_entry_fields_by_column(e);
    let fields = seq![
        e.word@,
        text_or_empty(e.meaning),
        text_or_empty(e.example_sentence),
        text_or_empty(e.source_book),
        decimal(page_or_zero(e.source_page)),
        text_or_empty(e.tags),
    ];
    assert(fields.drop_last().drop_last().drop_last().drop_last().drop_last() =~= seq![e.word@]);
    reveal_with_fuel(joined, 7);
    assert(csv_entry_line(e) =~= "\""@ + joined(fields, "\",\""@) + "\"\n"@);
}

/// Extracts words and sentences from text.
pub struct WordExtractor {
    _tokenizer: Option<()>,
}

impl WordExtractor {
    /// Creates a word extractor; this does not fail.
    pub fn new() -> (r: Result<WordExtractor, ShuseiError>)
        ensures
            r is Ok,
    {
        Ok(WordExtractor { _tokenizer: None })
    }

    /// Extracts the words of a text. Text with an ASCII character is read as
    /// English: its whitespace-separated tokens longer than two bytes and made
    /// of letters only, lowercased. Other text yields no words (morphological
    /// analysis of Japanese is not available).
    pub fn extract_words(&self, text: &str) -> (ws: Vec<ExtractedWord>)
        ensures
            are_foreign_words(ws@, extracted_words(text@)),
    {
        let chars = chars_of(text);
        let mut i: usize = 0;
        let mut ascii = false;
        while i < chars.len()
            invariant
                chars@ == text@,
                i <= chars@.len(),
                ascii == (exists|k: int| 0 <= k < i && (chars@[k] as u32) < 128),
            decreases chars.len() - i,
        {
            if (chars[i] as u32) < 128 {
                ascii = true;
            }
            i = i + 1;
        }
        if ascii {
            self.extract_english_words(text)
        } else {
            self.extract_japanese_words_placeholder(text)
        }
    }

    /// The English words of a text.
    fn extract_english_words(&self, text: &str) -> (ws: Vec<ExtractedWord>)
        ensures
            are_foreign_words(ws@, english_words(text@)),
    {
        let chars = chars_of(text);
        let tokens = split_chars(&chars, &Separator::Whitespace);
        let ghost all = split_by(text@, separator_fn(Separator::Whitespace));
        let mut ws: Vec<ExtractedWord> = Vec::new();
        let mut k: usize = 0;
        while k < tokens.len()
            invariant
                tokens.deep_view() == all,
                k <= tokens@.len(),
                are_foreign_words(ws@, english_words_of(all.subrange(0, k as int))),
            decreases tokens.len() - k,
        {
            let token = &tokens[k];
            assert(token@ == all[k as int]);
            let ghost prev = all.subrange(0, k as int);
            let ghost next = all.subrange(0, k + 1);
            assert(next.drop_last() =~= prev);
            let token_text = string_from_chars(token, 0, token.len());
            assert(token@.subrange(0, token@.len() as int) =~= token@);
            let mut letters = true;
            let mut j: usize = 0;
            while j < token.len()
                invariant
                    j <= token@.len(),
                    letters == (forall|m: int| 0 <= m < j ==> alphabetic(#[trigger] token@[m])),
                decreases token.len() - j,
            {
                if !char_is_alphabetic(token[j]) {
                    letters = false;
                }
                j = j + 1;
            }
            assert(letters == all_alphabetic(token@));
            let long = longer_than_two_bytes(token);
            let ghost before = english_words_of(prev);
            if long && letters {
                let lower = str_to_lowercase(token_text.as_str());
                let ghost old_ws = ws@;
                ws.push(ExtractedWord { word: lower, pos: PartOfSpeech::Unknown, is_foreign: true });
                assert(english_words_of(next) == before.push(lowercase(token@)));
                assert forall|i: int| 0 <= i < ws@.len() implies {
                    &&& (#[trigger] ws@[i]).word@ == english_words_of(next)[i]
                    &&& ws@[i].pos == PartOfSpeech::Unknown
                    &&& ws@[i].is_foreign
                } by {
                    if i < old_ws.len() {
                        assert(ws@[i] == old_ws[i]);
                    }
                }
            } else {
                assert(english_words_of(next) == before);
            }
            k = k + 1;
        }
        assert(all.subrange(0, tokens@.len() as int) =~= all);
        ws
    }

    /// Japanese text yields no words: morphological analysis is not available.
    fn extract_japanese_words_placeholder(&self, text: &str) -> (ws: Vec<ExtractedWord>)
        ensures
            ws@.len() == 0,
    {
        Vec::new()
    }

    /// The first sentence of `text` that contains `word`, trimmed of white
    /// space; sentences end at `。`, `.`, `！` and `!`.
    pub fn extract_sentence(&self, text: &str, word: &str) -> (r: Option<String>)
        ensures
            match r {
                Some(s) => sentence_with(text@, word@) == Some(s@),
                None => sentence_with(text@, word@) is None,
            },
    {
        let chars = chars_of(text);
        let w = chars_of(word);
        let pieces = split_chars(&chars, &Separator::SentenceEnd);
        let ghost ss = sentences(text@);
        let mut k: usize = 0;
        while k < pieces.len()
            invariant
                pieces.deep_view() == ss,
                ss == sentences(text@),
                w@ == word@,
                k <= ss.len(),
                first_sentence_with(ss, word@, 0) == first_sentence_with(ss, word@, k as int),
            decreases pieces.len() - k,
        {
            let piece = &pieces[k];
            assert(piece@ == ss[k as int]);
            if chars_contain(piece, &w) {
                assert(first_sentence_with(ss, word@, k as int) == Some(k as int));
                let (lo, hi) = trim_bounds(piece);
                let found = string_from_chars(piece, lo, hi);
                assert(found@ == trim(ss[k as int]));
                assert(sentence_with(text@, word@) == Some(trim(ss[k as int])));
                return Some(found);
            }
            k = k + 1;
        }
        None
    }
}

impl Default for WordExtractor {
    fn default() -> (w: Self) {
        match Self::new() {
            Ok(w) => w,
            Err(_) => WordExtractor { _tokenizer: None },
        }
    }
}

/// The text of an optional field, empty when absent (`as_deref().unwrap_or("")`).
pub open spec fn text_or_empty(o: Option<String>) -> Seq<char> {
    match o {
        Some(t) => t@,
        None => Seq::<char>::empty(),
    }
}

/// The page of an optional field, zero when absent (`unwrap_or(0)`).
pub open spec fn page_or_zero(o: Option<i32>) -> int {
    match o {
        Some(p) => p as int,
        None => 0,
    }
}

/// The heading line that every Markdown export starts with, and the blank
/// line after it.
pub open spec fn markdown_header() -> Seq<char> {
    "# Vocabulary List\n\n"@
}

/// The definition line of a word's Markdown block, if it has one.
pub open spec fn markdown_definition(w: Word) -> Seq<char> {
    match w.definition {
        Some(d) => "**Definition**: "@ + d@ + "\n"@,
        None => Seq::<char>::empty(),
    }
}

/// The example line of a word's Markdown block, if it has one.
pub open spec fn markdown_example(w: Word) -> Seq<char> {
    match w.context_text {
        Some(c) => "**Example**: "@ + c@ + "\n"@,
        None => Seq::<char>::empty(),
    }
}

/// The source line of a word's Markdown block, if it has a source book.
pub open spec fn markdown_source(w: Word) -> Seq<char> {
    match w.source_book_id {
        Some(b) => match w.source_page {
            Some(p) => "**Source**: Book "@ + b@ + " (p."@ + decimal(p as int) + ")\n"@,
            None => "**Source**: Book "@ + b@ + "\n"@,
        },
        None => Seq::<char>::empty(),
    }
}

/// The Markdown block of one word of the list.
pub open spec fn markdown_word_block(w: Word) -> Seq<char> {
    "## "@ + w.word@ + "\n"@ + markdown_definition(w) + markdown_example(w) + markdown_source(w)
        + "\n"@
}

/// The Markdown blocks of a list of words, in order.
pub open spec fn markdown_word_blocks(ws: Seq<Word>) -> Seq<char>
    decreases ws.len(),
{
    if ws.len() == 0 {
        Seq::<char>::empty()
    } else {
        markdown_word_blocks(ws.drop_last()) + markdown_word_block(ws.last())
    }
}

/// The Markdown export of a list of words.
pub open spec fn markdown_words(ws: Seq<Word>) -> Seq<char> {
    markdown_header() + markdown_word_blocks(ws)
}

/// The meaning line of an entry's Markdown block, if it has one.
pub open spec fn markdown_meaning(e: VocabularyEntry) -> Seq<char> {
    match e.meaning {
        Some(m) => "**Meaning**: "@ + m@ + "\n"@,
        None => Seq::<char>::empty(),
    }
}

/// The example line of an entry's Markdown block, if it has one.
pub open spec fn markdown_entry_example(e: VocabularyEntry) -> Seq<char> {
    match e.example_sentence {
        Some(x) => "**Example**: "@ + x@ + "\n"@,
        None => Seq::<char>::empty(),
    }
}

/// The source line of an entry's Markdown block, if it has a source book;
/// a missing page prints as page 0.
pub open spec fn markdown_entry_source(e: VocabularyEntry) -> Seq<char> {
    match e.source_book {
        Some(b) => "**Source**: "@ + b@ + " (p."@ + decimal(page_or_zero(e.source_page)) + ")\n"@,
        None => Seq::<char>::empty(),
    }
}

/// The Markdown block of one vocabulary entry.
pub open spec fn markdown_entry_block(e: VocabularyEntry) -> Seq<char> {
    "## "@ + e.word@ + "\n"@ + markdown_meaning(e) + markdown_entry_example(e)
        + markdown_entry_source(e) + "\n"@
}

/// The Markdown blocks of a list of entries, in order.
pub open spec fn markdown_entry_blocks(es: Seq<VocabularyEntry>) -> Seq<char>
    decreases es.len(),
{
    if es.len() == 0 {
        Seq::<char>::empty()
    } else {
        markdown_entry_blocks(es.drop_last()) + markdown_entry_block(es.last())
    }
}

/// The Markdown export of a list of vocabulary entries.
pub open spec fn markdown_entries(es: Seq<VocabularyEntry>) -> Seq<char> {
    markdown_header() + markdown_entry_blocks(es)
}

/// The header line of the CSV export of words.
pub open spec fn csv_words_header() -> Seq<char> {
    "word,definition,example_sentence,source_book_id,source_page\n"@
}

/// The CSV line of one word: every field in double quotes, unescaped.
pub open spec fn csv_word_line(w: Word) -> Seq<char> {
    "\""@ + w.word@ + "\",\""@ + text_or_empty(w.definition) + "\",\""@ + text_or_empty(
        w.context_text,
    ) + "\",\""@ + text_or_empty(w.source_book_id) + "\",\""@ + decimal(page_or_zero(w.source_page))
        + "\"\n"@
}

/// The CSV lines of a list of words, in order.
pub open spec fn csv_word_lines(ws: Seq<Word>) -> Seq<char>
    decreases ws.len(),
{
    if ws.len() == 0 {
        Seq::<char>::empty()
    } else {
        csv_word_lines(ws.drop_last()) + csv_word_line(ws.last())
    }
}

/// The CSV export of a list of words.
pub open spec fn csv_words(ws: Seq<Word>) -> Seq<char> {
    csv_words_header() + csv_word_lines(ws)
}

/// The header line of the CSV export of vocabulary entries.
pub open spec fn csv_entries_header() -> Seq<char> {
    "word,meaning,example_sentence,source_book,source_page,tags\n"@
}

/// The CSV line of one vocabulary entry.
pub open spec fn csv_entry_line(e: VocabularyEntry) -> Seq<char> {
    "\""@ + e.word@ + "\",\""@ + text_or_empty(e.meaning) + "\",\""@ + text_or_empty(
        e.example_sentence,
    ) + "\",\""@ + text_or_empty(e.source_book) + "\",\""@ + decimal(page_or_zero(e.source_page))
        + "\",\""@ + text_or_empty(e.tags) + "\"\n"@
}

/// The CSV lines of a list of entries, in order.
pub open spec fn csv_entry_lines(es: Seq<VocabularyEntry>) -> Seq<char>
    decreases es.len(),
{
    if es.len() == 0 {
        Seq::<char>::empty()
    } else {
        csv_entry_lines(es.drop_last()) + csv_entry_line(es.last())
    }
}

/// The CSV export of a list of vocabulary entries.
pub open spec fn csv_entries(es: Seq<VocabularyEntry>) -> Seq<char> {
    csv_entries_header() + csv_entry_lines(es)
}

fn push_labelled_line(md: &mut String, label: &str, value: &Option<String>)
    ensures
        final(md)@ == old(md)@ + match *value {
            Some(v) => label@ + v@ + "\n"@,
            None => Seq::<char>::empty(),
        },
{
    let ghost start = md@;
    if let Some(v) = value {
        push_str(md, label);
        push_str(md, v.as_str());
        push_str(md, "\n");
        assert(md@ =~= start + (label@ + v@ + "\n"@));
    } else {
        assert(md@ =~= start + Seq::<char>::empty());
    }
}

fn push_markdown_source(md: &mut String, w: &Word)
    ensures
        final(md)@ == old(md)@ + markdown_source(*w),
{
    let ghost start = md@;
    if let Some(book_id) = &w.source_book_id {
        if let Some(page) = w.source_page {
            push_str(md, "**Source**: Book ");
            push_str(md, book_id.as_str());
            push_str(md, " (p.");
            push_decimal(md, page as i64);
            push_str(md, ")\n");
            assert(md@ =~= start + markdown_source(*w));
        } else {
            push_str(md, "**Source**: Book ");
            push_str(md, book_id.as_str());
            push_str(md, "\n");
            assert(md@ =~= start + markdown_source(*w));
        }
    } else {
        assert(md@ =~= start + markdown_source(*w));
    }
}

fn push_markdown_word(md: &mut String, w: &Word)
    ensures
        final(md)@ == old(md)@ + markdown_word_block(*w),
{
    let ghost start = md@;
    push_str(md, "## ");
    push_str(md, w.word.as_str());
    push_str(md, "\n");
    let ghost after_head = md@;
    push_labelled_line(md, "**Definition**: ", &w.definition);
    let ghost after_def = md@;
    push_labelled_line(md, "**Example**: ", &w.context_text);
    let ghost after_ex = md@;
    push_markdown_source(md, w);
    let ghost after_src = md@;
    push_str(md, "\n");
    assert(after_head =~= start + ("## "@ + w.word@ + "\n"@));
    assert(after_def =~= after_head + markdown_definition(*w));
    assert(after_ex =~= after_def + markdown_example(*w));
    assert(md@ =~= start + markdown_word_block(*w));
}

/// The Markdown export of a list of words: a `# Vocabulary List` heading,
/// then for each word a `## word` heading with its definition, example
/// and source book (with page) where present.
pub fn export_markdown_words(words: &[Word]) -> (md: String)
    ensures
        md@ == markdown_words(words@),
{
    let mut md = "# Vocabulary List\n\n".to_owned();
    let mut i: usize = 0;
    while i < words.len()
        invariant
            i <= words@.len(),
            md@ == markdown_header() + markdown_word_blocks(words@.subrange(0, i as int)),
        decreases words.len() - i,
    {
        let ghost prev = md@;
        push_markdown_word(&mut md, &words[i]);
        assert(words@.subrange(0, i + 1).drop_last() =~= words@.subrange(0, i as int));
        i = i + 1;
        assert(md@ =~= markdown_header() + markdown_word_blocks(words@.subrange(0, i as int)));
    }
    assert(words@.subrange(0, words@.len() as int) =~= words@);
    md
}

fn push_markdown_entry_source(md: &mut String, e: &VocabularyEntry)
    ensures
        final(md)@ == old(md)@ + markdown_entry_source(*e),
{
    let ghost start = md@;
    if let Some(book) = &e.source_book {
        push_str(md, "**Source**: ");
        push_str(md, book.as_str());
        push_str(md, " (p.");
        push_page_or_zero(md, e.source_page);
        push_str(md, ")\n");
        assert(md@ =~= start + markdown_entry_source(*e));
    } else {
        assert(md@ =~= start + markdown_entry_source(*e));
    }
}

fn push_markdown_entry(md: &mut String, e: &VocabularyEntry)
    ensures
        final(md)@ == old(md)@ + markdown_entry_block(*e),
{
    let ghost start = md@;
    push_str(md, "## ");
    push_str(md, e.word.as_str());
    push_str(md, "\n");
    let ghost after_head = md@;
    push_labelled_line(md, "**Meaning**: ", &e.meaning);
    let ghost after_meaning = md@;
    push_labelled_line(md, "**Example**: ", &e.example_sentence);
    let ghost after_ex = md@;
    push_markdown_entry_source(md, e);
    push_str(md, "\n");
    assert(after_head =~= start + ("## "@ + e.word@ + "\n"@));
    assert(after_meaning =~= after_head + markdown_meaning(*e));
    assert(after_ex =~= after_meaning + markdown_entry_example(*e));
    assert(md@ =~= start + markdown_entry_block(*e));
}

/// The Markdown export of a list of vocabulary entries: a
/// `# Vocabulary List` heading, then for each entry a `## word` heading with
/// its meaning, example and source (page 0 when the page is missing).
pub fn export_markdown(entries: &[VocabularyEntry]) -> (md: String)
    ensures
        md@ == markdown_entries(entries@),
{
    let mut md = "# Vocabulary List\n\n".to_owned();
    let mut i: usize = 0;
    while i < entries.len()
        invariant
            i <= entries@.len(),
            md@ == markdown_header() + markdown_entry_blocks(entries@.subrange(0, i as int)),
        decreases entries.len() - i,
    {
        push_markdown_entry(&mut md, &entries[i]);
        assert(entries@.subrange(0, i + 1).drop_last() =~= entries@.subrange(0, i as int));
        i = i + 1;
        assert(md@ =~= markdown_header() + markdown_entry_blocks(entries@.subrange(0, i as int)));
    }
    assert(entries@.subrange(0, entries@.len() as int) =~= entries@);
    md
}

fn push_opt_text(s: &mut String, o: &Option<String>)
    ensures
        final(s)@ == old(s)@ + text_or_empty(*o),
{
    match o {
        Some(t) => push_str(s, t.as_str()),
        None => {
            assert(old(s)@ + text_or_empty(*o) =~= old(s)@);
        },
    }
}

fn push_page_or_zero(s: &mut String, o: Option<i32>)
    ensures
        final(s)@ == old(s)@ + decimal(page_or_zero(o)),
{
    let page: i32 = match o {
        Some(p) => p,
        None => 0,
    };
    push_decimal(s, page as i64);
}

fn push_csv_word(csv: &mut String, w: &Word)
    ensures
        final(csv)@ == old(csv)@ + csv_word_line(*w),
{
    let ghost start = csv@;
    push_str(csv, "\"");
    push_str(csv, w.word.as_str());
    push_str(csv, "\",\"");
    push_opt_text(csv, &w.definition);
    push_str(csv, "\",\"");
    push_opt_text(csv, &w.context_text);
    push_str(csv, "\",\"");
    push_opt_text(csv, &w.source_book_id);
    push_str(csv, "\",\"");
    push_page_or_zero(csv, w.source_page);
    push_str(csv, "\"\n");
    assert(csv@ =~= start + csv_word_line(*w));
}

/// The CSV export of a list of words: a header line, then one line per word
/// with its fields in double quotes (absent texts empty, absent page 0).
pub fn export_csv_words(words: &[Word]) -> (csv: String)
    ensures
        csv@ == csv_words(words@),
{
    let mut csv = "word,definition,example_sentence,source_book_id,source_page\n".to_owned();
    let mut i: usize = 0;
    while i < words.len()
        invariant
            i <= words@.len(),
            csv@ == csv_words_header() + csv_word_lines(words@.subrange(0, i as int)),
        decreases words.len() - i,
    {
        push_csv_word(&mut csv, &words[i]);
        assert(words@.subrange(0, i + 1).drop_last() =~= words@.subrange(0, i as int));
        i = i + 1;
        assert(csv@ =~= csv_words_header() + csv_word_lines(words@.subrange(0, i as int)));
    }
    assert(words@.subrange(0, words@.len() as int) =~= words@);
    csv
}

fn push_csv_entry(csv: &mut String, e: &VocabularyEntry)
    ensures
        final(csv)@ == old(csv)@ + csv_entry_line(*e),
{
    let ghost start = csv@;
    push_str(csv, "\"");
    push_str(csv, e.word.as_str());
    push_str(csv, "\",\"");
    push_opt_text(csv, &e.meaning);
    push_str(csv, "\",\"");
    push_opt_text(csv, &e.example_sentence);
    push_str(csv, "\",\"");
    push_opt_text(csv, &e.source_book);
    push_str(csv, "\",\"");
    push_page_or_zero(csv, e.source_page);
    push_str(csv, "\",\"");
    push_opt_text(csv, &e.tags);
    push_str(csv, "\"\n");
    assert(csv@ =~= start + csv_entry_line(*e));
}

/// The CSV export of a list of vocabulary entries: a header line, then one
/// line per entry with its fields in double quotes.
pub fn export_csv(entries: &[VocabularyEntry]) -> (csv: String)
    ensures
        csv@ == csv_entries(entries@),
{
    let mut csv = "word,meaning,example_sentence,source_book,source_page,tags\n".to_owned();
    let mut i: usize = 0;
    while i < entries.len()
        invariant
            i <= entries@.len(),
            csv@ == csv_entries_header() + csv_entry_lines(entries@.subrange(0, i as int)),
        decreases entries.len() - i,
    {
        push_csv_entry(&mut csv, &entries[i]);
        assert(entries@.subrange(0, i + 1).drop_last() =~= entries@.subrange(0, i as int));
        i = i + 1;
        assert(csv@ =~= csv_entries_header() + csv_entry_lines(entries@.subrange(0, i as int)));
    }
    assert(entries@.subrange(0, entries@.len() as int) =~= entries@);
    csv
}

/// The JSON model of an optional text: the text, or `null`.
pub open spec fn opt_text_model(o: Option<String>) -> JsonScalarModel {
    match o {
        Some(t) => JsonScalarModel::Text(t@),
        None => JsonScalarModel::Null,
    }
}

/// The JSON model of an optional page: the number, or `null`.
pub open spec fn opt_page_model(o: Option<i32>) -> JsonScalarModel {
    match o {
        Some(p) => JsonScalarModel::Int(p as i64),
        None => JsonScalarModel::Null,
    }
}

/// The fields of a word as a JSON object, in the order of the struct.
pub open spec fn word_record(w: Word) -> Seq<(Seq<char>, JsonScalarModel)> {
    seq![
        ("id"@, JsonScalarModel::Int(w.id)),
        ("word"@, JsonScalarModel::Text(w.word@)),
        ("definition"@, opt_text_model(w.definition)),
        ("ai_generated"@, JsonScalarModel::Bool(w.ai_generated)),
        ("source_book_id"@, opt_text_model(w.source_book_id)),
        ("source_page"@, opt_page_model(w.source_page)),
        ("context_text"@, opt_text_model(w.context_text)),
        ("created_at"@, JsonScalarModel::Int(w.created_at)),
        ("updated_at"@, JsonScalarModel::Int(w.updated_at)),
    ]
}

/// The fields of a vocabulary entry as a JSON object, in the order of the struct.
pub open spec fn entry_record(e: VocabularyEntry) -> Seq<(Seq<char>, JsonScalarModel)> {
    seq![
        ("id"@, JsonScalarModel::Int(e.id)),
        ("word"@, JsonScalarModel::Text(e.word@)),
        ("meaning"@, opt_text_model(e.meaning)),
        ("example_sentence"@, opt_text_model(e.example_sentence)),
        ("source_book"@, opt_text_model(e.source_book)),
        ("source_page"@, opt_page_model(e.source_page)),
        ("tags"@, opt_text_model(e.tags)),
        ("created_at"@, JsonScalarModel::Text(e.created_at@)),
        ("review_count"@, JsonScalarModel::Int(e.review_count as i64)),
        ("last_reviewed_at"@, opt_text_model(e.last_reviewed_at)),
    ]
}

/// The JSON export of a list of words: the pretty-printed array of their objects.
pub open spec fn json_words(ws: Seq<Word>) -> Seq<char> {
    pretty_json_text(ws.map_values(|w: Word| word_record(w)))
}

/// The JSON export of a list of vocabulary entries.
pub open spec fn json_entries(es: Seq<VocabularyEntry>) -> Seq<char> {
    pretty_json_text(es.map_values(|e: VocabularyEntry| entry_record(e)))
}

fn opt_text_scalar(o: &Option<String>) -> (v: JsonScalar)
    ensures
        v@ == opt_text_model(*o),
{
    match o {
        Some(t) => JsonScalar::Text(t.clone()),
        None => JsonScalar::Null,
    }
}

fn opt_page_scalar(o: Option<i32>) -> (v: JsonScalar)
    ensures
        v@ == opt_page_model(o),
{
    match o {
        Some(p) => JsonScalar::Int(p as i64),
        None => JsonScalar::Null,
    }
}

fn field(key: &str, value: JsonScalar) -> (f: (String, JsonScalar))
    ensures
        f.0@ == key@,
        f.1 == value,
{
    (key.to_owned(), value)
}

fn word_fields(w: &Word) -> (r: Vec<(String, JsonScalar)>)
    ensures
        record_model(r@) == word_record(*w),
{
    let mut r: Vec<(String, JsonScalar)> = Vec::new();
    r.push(field("id", JsonScalar::Int(w.id)));
    r.push(field("word", JsonScalar::Text(w.word.clone())));
    r.push(field("definition", opt_text_scalar(&w.definition)));
    r.push(field("ai_generated", JsonScalar::Bool(w.ai_generated)));
    r.push(field("source_book_id", opt_text_scalar(&w.source_book_id)));
    r.push(field("source_page", opt_page_scalar(w.source_page)));
    r.push(field("context_text", opt_text_scalar(&w.context_text)));
    r.push(field("created_at", JsonScalar::Int(w.created_at)));
    r.push(field("updated_at", JsonScalar::Int(w.updated_at)));
    assert(record_model(r@) =~= word_record(*w));
    r
}

fn entry_fields(e: &VocabularyEntry) -> (r: Vec<(String, JsonScalar)>)
    ensures
        record_model(r@) == entry_record(*e),
{
    let mut r: Vec<(String, JsonScalar)> = Vec::new();
    r.push(field("id", JsonScalar::Int(e.id)));
    r.push(field("word", JsonScalar::Text(e.word.clone())));
    r.push(field("meaning", opt_text_scalar(&e.meaning)));
    r.push(field("example_sentence", opt_text_scalar(&e.example_sentence)));
    r.push(field("source_book", opt_text_scalar(&e.source_book)));
    r.push(field("source_page", opt_page_scalar(e.source_page)));
    r.push(field("tags", opt_text_scalar(&e.tags)));
    r.push(field("created_at", JsonScalar::Text(e.created_at.clone())));
    r.push(field("review_count", JsonScalar::Int(e.review_count as i64)));
    r.push(field("last_reviewed_at", opt_text_scalar(&e.last_reviewed_at)));
    assert(record_model(r@) =~= entry_record(*e));
    r
}

/// The JSON export of a list of words: the pretty-printed array of one
/// object per word, fields in the order of [`Word`]; `[]` for no words.
pub fn export_json_words(words: &[Word]) -> (json: String)
    ensures
        json@ == json_words(words@),
        words@.len() == 0 ==> json@ == "[]"@,
{
    let mut records: Vec<Vec<(String, JsonScalar)>> = Vec::new();
    let mut i: usize = 0;
    while i < words.len()
        invariant
            i <= words@.len(),
            records@.len() == i,
            forall|k: int| 0 <= k < i ==> record_model(#[trigger] records@[k]@) == word_record(words@[k]),
        decreases words.len() - i,
    {
        records.push(word_fields(&words[i]));
        i = i + 1;
    }
    assert(records_model(records@) =~= words@.map_values(|w: Word| word_record(w)));
    to_pretty_json(records)
}

/// The JSON export of a list of vocabulary entries, fields in the order of
/// [`VocabularyEntry`]; `[]` for no entries.
pub fn export_json(entries: &[VocabularyEntry]) -> (json: String)
    ensures
        json@ == json_entries(entries@),
        entries@.len() == 0 ==> json@ == "[]"@,
{
    let mut records: Vec<Vec<(String, JsonScalar)>> = Vec::new();
    let mut i: usize = 0;
    while i < entries.len()
        invariant
            i <= entries@.len(),
            records@.len() == i,
            forall|k: int| 0 <= k < i ==> record_model(#[trigger] records@[k]@) == entry_record(entries@[k]),
        decreases entries.len() - i,
    {
        records.push(entry_fields(&entries[i]));
        i = i + 1;
    }
    assert(records_model(records@) =~= entries@.map_values(|e: VocabularyEntry| entry_record(e)));
    to_pretty_json(records)
}

/// The export of a list of vocabulary entries in the given format.
pub fn export_vocabulary(entries: &[VocabularyEntry], format: ExportFormat) -> (text: String)
    ensures
        text@ == match format {
            ExportFormat::Markdown => markdown_entries(entries@),
            ExportFormat::Csv => csv_entries(entries@),
            ExportFormat::Json => json_entries(entries@),
        },
{
    match format {
        ExportFormat::Markdown => export_markdown(entries),
        ExportFormat::Csv => export_csv(entries),
        ExportFormat::Json => export_json(entries),
    }
}

/// The export of a list of words in the given format.
pub fn export_vocabulary_words(words: &[Word], format: ExportFormat) -> (text: String)
    ensures
        text@ == match format {
            ExportFormat::Markdown => markdown_words(words@),
            ExportFormat::Csv => csv_words(words@),
            ExportFormat::Json => json_words(words@),
        },
{
    match format {
        ExportFormat::Markdown => export_markdown_words(words),
        ExportFormat::Csv => export_csv_words(words),
        ExportFormat::Json => export_json_words(words),
    }
}

} // verus!
