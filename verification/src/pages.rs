//! What the reading and capture pages decide: how a recognised page is laid
//! out in paragraphs and headings, where reading resumes, what a tapped
//! word saves, and what the capture page accepts, offers and reports.
use vstd::prelude::*;
use crate::db::NewWord;
use crate::screens::ToastType;
use crate::text::{
    chars_of, chars_contain, contains, decimal, joined, push_str, push_unsigned, push_decimal,
    string_from_chars, trim, trim_bounds, split_by, split_chars, separator_fn, Separator, lines_of,
    text_lines, views, join_strings,
};
use crate::vocab::{WordExtractor, sentence_with};

verus! {

/// The pieces of `s` between the blank lines `\n\n`, found from the left
/// and not overlapping, with `cur` the start of the first piece, as
/// `str::split("\n\n")` finds them.
pub open spec fn pieces_from(s: Seq<char>, cur: Seq<char>) -> Seq<Seq<char>>
    decreases s.len(),
{
    if s.len() == 0 {
        seq![cur]
    } else if s.len() >= 2 && s[0] == '\n' && s[1] == '\n' {
        seq![cur] + pieces_from(s.subrange(2, s.len() as int), Seq::<char>::empty())
    } else {
        pieces_from(s.drop_first(), cur.push(s[0]))
    }
}

/// The pieces of `s` between blank lines.
pub open spec fn split_blank_lines(s: Seq<char>) -> Seq<Seq<char>> {
    pieces_from(s, Seq::<char>::empty())
}

/// The pieces of a text between blank lines, in order.
pub fn split_at_blank_lines(text: &str) -> (pieces: Vec<Vec<char>>)
    ensures
        pieces.deep_view() == split_blank_lines(text@),
{
    let v = chars_of(text);
    let mut pieces: Vec<Vec<char>> = Vec::new();
    let mut cur: Vec<char> = Vec::new();
    let mut i: usize = 0;
    assert(v@.subrange(0, v@.len() as int) =~= v@);
    assert(pieces.deep_view() =~= Seq::<Seq<char>>::empty());
    assert(Seq::<Seq<char>>::empty() + pieces_from(v@, cur@) =~= pieces_from(v@, cur@));
    while i < v.len()
        invariant
            i <= v@.len(),
            v@ == text@,
            split_blank_lines(text@) == pieces.deep_view() + pieces_from(v@.subrange(i as int, v@.len() as int), cur@),
        decreases v.len() - i,
    {
        let ghost rest = v@.subrange(i as int, v@.len() as int);
        if i + 1 < v.len() && v[i] == '\n' && v[i + 1] == '\n' {
            assert(rest.subrange(2, rest.len() as int) =~= v@.subrange(i + 2, v@.len() as int));
            let ghost before = pieces.deep_view();
            let done = cur;
            assert(done.deep_view() =~= done@);
            cur = Vec::new();
            pieces.push(done);
            assert(pieces.deep_view() =~= before.push(done@));
            assert(before + (seq![done@] + pieces_from(v@.subrange(i + 2, v@.len() as int), cur@)) =~= before.push(done@) + pieces_from(v@.subrange(i + 2, v@.len() as int), cur@));
            i = i + 2;
        } else {
            assert(rest.drop_first() =~= v@.subrange(i + 1, v@.len() as int));
            cur.push(v[i]);
            i = i + 1;
        }
    }
    let ghost before = pieces.deep_view();
    assert(cur.deep_view() =~= cur@);
    assert(v@.subrange(i as int, v@.len() as int) =~= Seq::<char>::empty());
    pieces.push(cur);
    assert(pieces.deep_view() =~= before + seq![cur@]);
    pieces
}

/// `s` without every leading `# `, as `trim_start_matches("# ")` gives it.
pub open spec fn strip_heading_marks(s: Seq<char>) -> Seq<char>
    decreases s.len(),
{
    if s.len() >= 2 && s[0] == '#' && s[1] == ' ' {
        strip_heading_marks(s.subrange(2, s.len() as int))
    } else {
        s
    }
}

/// A paragraph of a recognised page as the reader shows it.
#[derive(Debug, Clone)]
pub struct PageBlock {
    /// Whether the paragraph is a heading (it starts with `# `).
    pub is_heading: bool,
    /// The paragraph's text; a heading without its marks and trimmed.
    pub text: String,
}

/// How the reader shows a piece: a heading when it starts with `# `, its
/// text stripped of the marks and trimmed; else as it stands.
pub open spec fn block_of(piece: Seq<char>) -> (bool, Seq<char>) {
    if piece.len() >= 2 && piece[0] == '#' && piece[1] == ' ' {
        (true, trim(strip_heading_marks(piece)))
    } else {
        (false, piece)
    }
}

/// The blocks of a page: its pieces between blank lines that are not blank,
/// each as `block_of` shows it.
pub open spec fn blocks_of(pieces: Seq<Seq<char>>) -> Seq<(bool, Seq<char>)>
    decreases pieces.len(),
{
    if pieces.len() == 0 {
        Seq::<(bool, Seq<char>)>::empty()
    } else {
        let rest = blocks_of(pieces.drop_last());
        if trim(pieces.last()).len() > 0 {
            rest.push(block_of(pieces.last()))
        } else {
            rest
        }
    }
}

/// The view of a block.
pub open spec fn block_view(b: PageBlock) -> (bool, Seq<char>) {
    (b.is_heading, b.text@)
}

fn heading_text(piece: &Vec<char>) -> (t: String)
    requires
        piece@.len() >= 2 && piece@[0] == '#' && piece@[1] == ' ',
    ensures
        t@ == trim(strip_heading_marks(piece@)),
{
    let mut lo: usize = 0;
    assert(piece@.subrange(0, piece@.len() as int) =~= piece@);
    while lo < piece.len() && piece.len() - lo >= 2 && piece[lo] == '#' && piece[lo + 1] == ' '
        invariant
            lo <= piece@.len(),
            strip_heading_marks(piece@) == strip_heading_marks(piece@.subrange(lo as int, piece@.len() as int)),
        decreases piece.len() - lo,
    {
        assert(piece@.subrange(lo as int, piece@.len() as int).subrange(2, piece@.len() - lo) =~= piece@.subrange(lo + 2, piece@.len() as int));
        lo = lo + 2;
    }
    let rest = string_from_chars(piece.as_slice(), lo, piece.len());
    assert(piece@.subrange(0, piece@.len() as int) =~= piece@);
    let rc = chars_of(rest.as_str());
    let (a, b) = trim_bounds(&rc);
    string_from_chars(&rc, a, b)
}

/// The paragraphs and headings of a recognised page's Markdown.
pub fn page_blocks(content: &str) -> (blocks: Vec<PageBlock>)
    ensures
        blocks@.map_values(|b: PageBlock| block_view(b)) == blocks_of(split_blank_lines(content@)),
{
    let pieces = split_at_blank_lines(content);
    let ghost all = pieces.deep_view();
    let mut blocks: Vec<PageBlock> = Vec::new();
    let mut k: usize = 0;
    while k < pieces.len()
        invariant
            k <= pieces@.len(),
            all == pieces.deep_view(),
            blocks@.map_values(|b: PageBlock| block_view(b)) == blocks_of(all.subrange(0, k as int)),
        decreases pieces.len() - k,
    {
        let piece = &pieces[k];
        assert(all.subrange(0, k + 1).drop_last() =~= all.subrange(0, k as int));
        assert(all.subrange(0, k + 1).last() == piece@);
        let (a, b) = trim_bounds(piece.as_slice());
        if a < b {
            let block = if piece.len() >= 2 && piece[0] == '#' && piece[1] == ' ' {
                PageBlock { is_heading: true, text: heading_text(piece) }
            } else {
                let t = string_from_chars(piece.as_slice(), 0, piece.len());
                assert(piece@.subrange(0, piece@.len() as int) =~= piece@);
                PageBlock { is_heading: false, text: t }
            };
            let ghost before = blocks@;
            blocks.push(block);
            assert(blocks@.map_values(|b: PageBlock| block_view(b)) =~= before.map_values(|b: PageBlock| block_view(b)).push(block_view(block)));
        }
        k = k + 1;
    }
    assert(all.subrange(0, all.len() as int) =~= all);
    blocks
}

/// The page where reading resumes: the progress record's page when it is
/// past 0, else the page remembered on the device.
pub fn restore_page(progress_page: Option<i32>, remembered_page: Option<i32>) -> (p: Option<i32>)
    ensures
        p == match progress_page {
            Some(q) if q > 0 => Some(q),
            _ => remembered_page,
        },
{
    match progress_page {
        Some(q) => if q > 0 {
            Some(q)
        } else {
            remembered_page
        },
        None => remembered_page,
    }
}

/// The key under which the last page read of a book is remembered.
pub fn last_read_key(book_id: i64) -> (k: String)
    ensures
        k@ == "last_read_book_"@ + decimal(book_id as int),
{
    let mut k = String::from_str("last_read_book_");
    push_decimal(&mut k, book_id);
    k
}

/// The reader's text size before the reader picks one.
pub const DEFAULT_FONT_SIZE: i32 = 18;

/// How saving a tapped word went.
#[derive(Debug, Clone)]
pub enum WordSaveOutcome {
    /// The word was saved.
    Saved,
    /// The word was saved before.
    AlreadySaved,
    /// Saving failed with this message.
    Failed(String),
    /// The background task failed with this message.
    TaskFailed(String),
}

/// The toast after tapping a word.
pub fn word_save_toast(outcome: WordSaveOutcome) -> (t: (String, ToastType))
    ensures
        match outcome {
            WordSaveOutcome::Saved => t.0@ == "Word saved!"@ && t.1 == ToastType::Success,
            WordSaveOutcome::AlreadySaved => t.0@ == "Already saved"@ && t.1 == ToastType::Info,
            WordSaveOutcome::Failed(m) => t.0@ == m@ && t.1 == ToastType::Error,
            WordSaveOutcome::TaskFailed(m) => t.0@ == "Error: "@ + m@ && t.1 == ToastType::Error,
        },
{
    match outcome {
        WordSaveOutcome::Saved => (String::from_str("Word saved!"), ToastType::Success),
        WordSaveOutcome::AlreadySaved => (String::from_str("Already saved"), ToastType::Info),
        WordSaveOutcome::Failed(m) => (m, ToastType::Error),
        WordSaveOutcome::TaskFailed(m) => {
            let mut s = String::from_str("Error: ");
            push_str(&mut s, m.as_str());
            (s, ToastType::Error)
        },
    }
}

/// How deleting a saved word went.
#[derive(Debug, Clone)]
pub enum WordDeleteOutcome {
    /// The word was deleted.
    Deleted,
    /// Deleting failed with this message.
    Failed(String),
    /// The background task failed.
    TaskFailed,
}

/// The toast after deleting a word.
pub fn word_delete_toast(outcome: WordDeleteOutcome) -> (t: (String, ToastType))
    ensures
        match outcome {
            WordDeleteOutcome::Deleted => t.0@ == "Word deleted"@ && t.1 == ToastType::Success,
            WordDeleteOutcome::Failed(m) => t.0@ == "Failed to delete: "@ + m@ && t.1 == ToastType::Error,
            WordDeleteOutcome::TaskFailed => t.0@ == "Failed to delete word"@ && t.1 == ToastType::Error,
        },
{
    match outcome {
        WordDeleteOutcome::Deleted => (String::from_str("Word deleted"), ToastType::Success),
        WordDeleteOutcome::Failed(m) => {
            let mut s = String::from_str("Failed to delete: ");
            push_str(&mut s, m.as_str());
            (s, ToastType::Error)
        },
        WordDeleteOutcome::TaskFailed => (String::from_str("Failed to delete word"), ToastType::Error),
    }
}

/// The page reading stands at, from the page estimated from the scroll
/// position and the book's page count: the estimate held to the pages,
/// from 1 up to the count taken as `i32` (a count of 1 or less, so taken,
/// gives 1). A book without pages has none.
pub open spec fn reading_page_of(estimated_page: i32, page_count: usize) -> Option<i32> {
    if page_count == 0 {
        None
    } else {
        let last = page_count as i32;
        let capped = if estimated_page < last { estimated_page } else { last };
        Some(if capped > 1 { capped } else { 1i32 })
    }
}

/// The page reading stands at, which the reader saves with the status
/// `reading` (`ProgressStatus::Reading`).
pub fn reading_page(estimated_page: i32, page_count: usize) -> (p: Option<i32>)
    ensures
        p == reading_page_of(estimated_page, page_count),
        p matches Some(n) ==> 1 <= n && (page_count <= i32::MAX ==> n <= page_count),
{
    if page_count == 0 {
        return None;
    }
    let last = page_count as i32;
    let capped = if estimated_page < last { estimated_page } else { last };
    Some(if capped > 1 { capped } else { 1 })
}

/// The vocabulary entry of a word tapped on a page: no definition, written
/// by the reader, from the book and page, with the page's first sentence
/// that holds the word as context.
pub fn tapped_word(word: String, book_id: i64, page_number: i32, page_text: &str) -> (w: NewWord)
    ensures
        w.word == word,
        w.definition is None,
        !w.ai_generated,
        w.source_book_id matches Some(b) && b@ == decimal(book_id as int),
        w.source_page == Some(page_number),
        match w.context_text {
            Some(c) => sentence_with(page_text@, word@) == Some(c@),
            None => sentence_with(page_text@, word@) is None,
        },
{
    let context = match WordExtractor::new() {
        Ok(extractor) => extractor.extract_sentence(page_text, word.as_str()),
        Err(_) => None,
    };
    let mut id = String::new();
    push_decimal(&mut id, book_id);
    NewWord {
        word,
        definition: None,
        ai_generated: false,
        source_book_id: Some(id),
        source_page: Some(page_number),
        context_text: context,
    }
}

/// Whether every character is an ASCII digit.
pub open spec fn all_digits(s: Seq<char>) -> bool {
    forall|i: int| 0 <= i < s.len() ==> '0' <= #[trigger] s[i] && s[i] <= '9'
}

/// The number the digits spell.
pub open spec fn digits_value(s: Seq<char>) -> nat
    decreases s.len(),
{
    if s.len() == 0 {
        0
    } else {
        digits_value(s.drop_last()) * 10 + (s.last() as nat - '0' as nat) as nat
    }
}

/// What `str::parse::<u32>` gives: an optional `+` and at least one digit,
/// for a value that fits.
pub open spec fn parse_u32_text(s: Seq<char>) -> Option<u32> {
    let ds = if s.len() > 0 && s[0] == '+' { s.drop_first() } else { s };
    if ds.len() > 0 && all_digits(ds) && digits_value(ds) <= u32::MAX {
        Some(digits_value(ds) as u32)
    } else {
        None
    }
}

/// Parses a decimal `u32`.
pub fn parse_u32(text: &str) -> (r: Option<u32>)
    ensures
        r == parse_u32_text(text@),
{
    let v = chars_of(text);
    let start: usize = if v.len() > 0 && v[0] == '+' { 1 } else { 0 };
    let ghost ds = if v@.len() > 0 && v@[0] == '+' { v@.drop_first() } else { v@ };
    assert(ds =~= v@.subrange(start as int, v@.len() as int));
    if start == v.len() {
        return None;
    }
    let mut value: u64 = 0;
    let mut i: usize = start;
    while i < v.len()
        invariant
            start <= i <= v@.len(),
            v@ == text@,
            ds == (if v@.len() > 0 && v@[0] == '+' { v@.drop_first() } else { v@ }),
            ds == v@.subrange(start as int, v@.len() as int),
            all_digits(v@.subrange(start as int, i as int)),
            value == digits_value(v@.subrange(start as int, i as int)),
            value <= u32::MAX,
        decreases v.len() - i,
    {
        let c = v[i];
        let ghost prefix = v@.subrange(start as int, i + 1);
        assert(prefix.drop_last() =~= v@.subrange(start as int, i as int));
        if c < '0' || c > '9' {
            assert(!all_digits(ds)) by {
                assert(ds[i - start] == c);
            }
            return None;
        }
        let d = (c as u32 - '0' as u32) as u64;
        value = value * 10 + d;
        if value > 4294967295u64 {
            proof {
                if all_digits(ds) {
                    lemma_digits_value_grows(ds, i + 1 - start);
                    assert(ds.subrange(0, i + 1 - start) =~= prefix);
                }
            }
            return None;
        }
        i = i + 1;
    }
    assert(v@.subrange(start as int, i as int) =~= ds);
    Some(value as u32)
}

/// A longer run of digits spells a number at least as large.
proof fn lemma_digits_value_grows(ds: Seq<char>, n: int)
    requires
        0 <= n <= ds.len(),
        all_digits(ds),
    ensures
        digits_value(ds.subrange(0, n)) <= digits_value(ds),
    decreases ds.len() - n,
{
    if n < ds.len() {
        lemma_digits_value_grows(ds, n + 1);
        assert(ds.subrange(0, n + 1).drop_last() =~= ds.subrange(0, n));
        assert('0' <= ds[n] <= '9');
    } else {
        assert(ds.subrange(0, n) =~= ds);
    }
}

/// The page number the capture page keeps after an edit: the typed number
/// when it is a number of at least 1, else the current one.
pub fn page_number_from_input(input: &str, current: u32) -> (n: u32)
    ensures
        n == match parse_u32_text(input@) {
            Some(p) if p >= 1 => p,
            _ => current,
        },
{
    match parse_u32(input) {
        Some(p) => if p >= 1 {
            p
        } else {
            current
        },
        None => current,
    }
}

/// The label of the OCR button.
pub fn ocr_button_label(engine_loading: bool, processing: bool, engine_ready: bool) -> (l: &'static str)
    ensures
        l@ == if engine_loading {
            "Loading..."@
        } else if processing {
            "Processing..."@
        } else if !engine_ready {
            "Engine Loading..."@
        } else {
            "🔍 Run OCR"@
        },
{
    if engine_loading {
        "Loading..."
    } else if processing {
        "Processing..."
    } else if !engine_ready {
        "Engine Loading..."
    } else {
        "🔍 Run OCR"
    }
}

/// The label of the save button.
pub fn save_page_button_label(saving: bool, has_result: bool) -> (l: &'static str)
    ensures
        l@ == if saving {
            "💾 Saving..."@
        } else if !has_result {
            "💾 Save Page (run OCR first)"@
        } else {
            "💾 Save Page"@
        },
{
    if saving {
        "💾 Saving..."
    } else if !has_result {
        "💾 Save Page (run OCR first)"
    } else {
        "💾 Save Page"
    }
}

/// Whether a captured page can be saved: it needs a book and an image.
pub fn check_page_save(book_id: &Option<String>, has_image: bool) -> (r: Result<(), String>)
    ensures
        book_id is None ==> (r matches Err(m) && m@ == "No book ID - cannot save page"@),
        book_id is Some && !has_image ==> (r matches Err(m) && m@ == "No image data to save"@),
        book_id is Some && has_image ==> r is Ok,
{
    if book_id.is_none() {
        return Err(String::from_str("No book ID - cannot save page"));
    }
    if !has_image {
        return Err(String::from_str("No image data to save"));
    }
    Ok(())
}

/// What the OCR of a captured page runs into before it starts.
pub fn check_ocr_start(has_image: bool, engine_ready: bool) -> (r: Result<(), String>)
    ensures
        !has_image ==> (r matches Err(m) && m@ == "No image captured"@),
        has_image && !engine_ready ==> (r matches Err(m) && m@ == "OCR engine not ready"@),
        has_image && engine_ready ==> r is Ok,
{
    if !has_image {
        return Err(String::from_str("No image captured"));
    }
    if !engine_ready {
        return Err(String::from_str("OCR engine not ready"));
    }
    Ok(())
}

/// The message once a captured page is saved, above the OCR text.
pub fn page_saved_message(page_number: u32, ocr_text: &str) -> (m: String)
    ensures
        m@ == "✅ Page "@ + decimal(page_number as int) + " saved successfully!\n\n"@ + ocr_text@,
{
    let mut m = String::from_str("✅ Page ");
    push_unsigned(&mut m, page_number as u64);
    push_str(&mut m, " saved successfully!\n\n");
    push_str(&mut m, ocr_text);
    m
}

/// The message when saving a captured page fails: a page number already
/// used for the book is reported as such, any other failure as it is.
pub fn page_save_error_message(page_number: u32, error: &str) -> (m: String)
    ensures
        contains(error@, "UNIQUE constraint failed"@) ==> m@ == "Page "@ + decimal(page_number as int)
            + " already exists for this book. Please use a different page number or overwrite."@,
        !contains(error@, "UNIQUE constraint failed"@) ==> m@ == "Failed to save to database: "@ + error@,
{
    let e = chars_of(error);
    let pat = chars_of("UNIQUE constraint failed");
    if chars_contain(&e, &pat) {
        let mut m = String::from_str("Page ");
        push_unsigned(&mut m, page_number as u64);
        push_str(&mut m, " already exists for this book. Please use a different page number or overwrite.");
        m
    } else {
        let mut m = String::from_str("Failed to save to database: ");
        push_str(&mut m, error);
        m
    }
}

/// The lines after the first.
pub open spec fn lines_after_first(s: Seq<char>) -> Seq<Seq<char>> {
    if text_lines(s).len() > 1 {
        text_lines(s).drop_first()
    } else {
        Seq::<Seq<char>>::empty()
    }
}

/// The text of an OCR result shown on the capture page: every line after
/// the first (the heading with the confidence), joined with `\n`.
pub fn ocr_result_body(display: &str) -> (body: String)
    ensures
        body@ == joined(lines_after_first(display@), "\n"@),
{
    let mut lines = lines_of(display);
    if lines.len() <= 1 {
        assert(lines_after_first(display@) =~= Seq::<Seq<char>>::empty());
        return String::new();
    }
    let ghost all = lines@;
    let _heading = lines.remove(0);
    assert(views(lines@) =~= views(all).drop_first());
    join_strings(&lines, "\n")
}

} // verus!
