//! The tokenizers of the speech pipeline: the model's own tokenizer, read
//! by the `tokenizers` crate from its JSON definition, and a
//! character-level tokenizer for Japanese used without a model.
use vstd::prelude::*;
use std::collections::HashMap;
use tokenizers::Tokenizer as HfTokenizer;
use crate::error::{ShuseiError, SttError};
use crate::text::{chars_of, push_str};

verus! {

broadcast use vstd::std_specs::hash::group_hash_axioms;

/// The vocabulary in id order: the markers `<` and `>`, the basic hiragana,
/// the voiced and semi-voiced hiragana, and the basic katakana.
pub open spec fn japanese_alphabet() -> Seq<char> {
    seq!['<', '>'] + "あいうえおかきくけこさしすせそたちつてとなにぬねのはひふへほまみむめもやゆよらりるれろわをん"@
        + "がぎぐげござじずぜぞだぢづでどばびぶべぼぱぴぷぺぽ"@
        + "アイウエオカキクケコサシスセソタチツテトナニヌネノハヒフヘホマミムメモヤユヨラリルレロワヲン"@
}

/// The map from characters (by code point) to ids after inserting `chars`
/// in order, the `i`-th with id `i`; a repeated character keeps its last id.
pub open spec fn ids_after(chars: Seq<char>) -> Map<u32, i32>
    decreases chars.len(),
{
    if chars.len() == 0 {
        Map::<u32, i32>::empty()
    } else {
        ids_after(chars.drop_last()).insert(chars.last() as u32, (chars.len() - 1) as i32)
    }
}

/// The map from ids to characters after inserting `chars` in order.
pub open spec fn chars_after(chars: Seq<char>) -> Map<i32, char>
    decreases chars.len(),
{
    if chars.len() == 0 {
        Map::<i32, char>::empty()
    } else {
        chars_after(chars.drop_last()).insert((chars.len() - 1) as i32, chars.last())
    }
}

/// The ids of the characters of `text` that the vocabulary knows, in order.
pub open spec fn encode_with(ids: Map<u32, i32>, text: Seq<char>) -> Seq<i32>
    decreases text.len(),
{
    if text.len() == 0 {
        Seq::<i32>::empty()
    } else {
        let rest = encode_with(ids, text.drop_last());
        if ids.contains_key(text.last() as u32) {
            rest.push(ids[text.last() as u32])
        } else {
            rest
        }
    }
}

/// The characters of the ids that the vocabulary knows, in order.
pub open spec fn decode_with(chars: Map<i32, char>, ids: Seq<i32>) -> Seq<char>
    decreases ids.len(),
{
    if ids.len() == 0 {
        Seq::<char>::empty()
    } else {
        let rest = decode_with(chars, ids.drop_last());
        if chars.contains_key(ids.last()) {
            rest.push(chars[ids.last()])
        } else {
            rest
        }
    }
}

/// The characters of `text` that the vocabulary knows, in order.
pub open spec fn known_chars(ids: Map<u32, i32>, text: Seq<char>) -> Seq<char>
    decreases text.len(),
{
    if text.len() == 0 {
        Seq::<char>::empty()
    } else {
        let rest = known_chars(ids, text.drop_last());
        if ids.contains_key(text.last() as u32) {
            rest.push(text.last())
        } else {
            rest
        }
    }
}

/// Whether the characters from position `k` on rise strictly in code
/// point.
pub open spec fn ascending_from(s: Seq<char>, k: int) -> bool
    decreases s.len() - k,
{
    if k < 0 || k + 1 >= s.len() {
        true
    } else {
        (s[k] as int) < (s[k + 1] as int) && ascending_from(s, k + 1)
    }
}

/// Whether the first `n` characters of `a` and the first `m` of `b`, both
/// rising, share none, walking both from their ends as a merge does.
pub open spec fn apart(a: Seq<char>, b: Seq<char>, n: int, m: int) -> bool
    decreases n + m,
{
    if n <= 0 || m <= 0 {
        true
    } else if (a[n - 1] as int) == (b[m - 1] as int) {
        false
    } else if (a[n - 1] as int) > (b[m - 1] as int) {
        apart(a, b, n - 1, m)
    } else {
        apart(a, b, n, m - 1)
    }
}

proof fn lemma_ascending(s: Seq<char>, k: int)
    requires
        0 <= k,
        ascending_from(s, k),
    ensures
        forall|i: int, j: int| k <= i < j < s.len() ==> (s[i] as int) < (s[j] as int),
    decreases s.len() - k,
{
    if k + 1 < s.len() {
        lemma_ascending(s, k + 1);
    }
}

proof fn lemma_apart(a: Seq<char>, b: Seq<char>, n: int, m: int)
    requires
        0 <= n <= a.len(),
        0 <= m <= b.len(),
        forall|i: int, j: int| 0 <= i < j < a.len() ==> (a[i] as int) < (a[j] as int),
        forall|i: int, j: int| 0 <= i < j < b.len() ==> (b[i] as int) < (b[j] as int),
        apart(a, b, n, m),
    ensures
        forall|i: int, j: int| 0 <= i < n && 0 <= j < m ==> a[i] != b[j],
    decreases n + m,
{
    if n > 0 && m > 0 {
        if (a[n - 1] as int) > (b[m - 1] as int) {
            lemma_apart(a, b, n - 1, m);
            assert forall|i: int, j: int| 0 <= i < n && 0 <= j < m implies a[i] != b[j] by {
                if i == n - 1 && j < m - 1 {
                    assert((b[j] as int) < (b[m - 1] as int));
                }
            }
        } else {
            lemma_apart(a, b, n, m - 1);
            assert forall|i: int, j: int| 0 <= i < n && 0 <= j < m implies a[i] != b[j] by {
                if j == m - 1 && i < n - 1 {
                    assert((a[i] as int) < (a[n - 1] as int));
                }
            }
        }
    }
}

/// The vocabulary's characters are all different.
proof fn lemma_alphabet_distinct()
    ensures
        forall|i: int, j: int|
            0 <= i < j < japanese_alphabet().len() ==> japanese_alphabet()[i] != japanese_alphabet()[j],
{
    let basic = "あいうえおかきくけこさしすせそたちつてとなにぬねのはひふへほまみむめもやゆよらりるれろわをん"@;
    let voiced = "がぎぐげござじずぜぞだぢづでどばびぶべぼぱぴぷぺぽ"@;
    let katakana = "アイウエオカキクケコサシスセソタチツテトナニヌネノハヒフヘホマミムメモヤユヨラリルレロワヲン"@;
    reveal_strlit("あいうえおかきくけこさしすせそたちつてとなにぬねのはひふへほまみむめもやゆよらりるれろわをん");
    reveal_strlit("がぎぐげござじずぜぞだぢづでどばびぶべぼぱぴぷぺぽ");
    reveal_strlit("アイウエオカキクケコサシスセソタチツテトナニヌネノハヒフヘホマミムメモヤユヨラリルレロワヲン");
    let voiced1 = voiced.subrange(0, 20);
    let voiced2 = voiced.subrange(20, 25);
    assert(ascending_from(basic, 0)) by {
        reveal_with_fuel(ascending_from, 47);
    }
    assert(ascending_from(voiced1, 0)) by {
        reveal_with_fuel(ascending_from, 21);
    }
    assert(ascending_from(voiced2, 0)) by {
        reveal_with_fuel(ascending_from, 6);
    }
    assert(ascending_from(katakana, 0)) by {
        reveal_with_fuel(ascending_from, 47);
    }
    lemma_ascending(basic, 0);
    lemma_ascending(voiced1, 0);
    lemma_ascending(voiced2, 0);
    lemma_ascending(katakana, 0);
    assert(apart(basic, voiced1, 46, 20)) by {
        reveal_with_fuel(apart, 67);
    }
    assert(apart(basic, voiced2, 46, 5)) by {
        reveal_with_fuel(apart, 52);
    }
    lemma_apart(basic, voiced1, 46, 20);
    lemma_apart(basic, voiced2, 46, 5);
}

/// A character-level tokenizer with a fixed vocabulary.
pub struct SimpleTokenizer {
    vocab: HashMap<u32, i32>,
    reverse_vocab: HashMap<i32, char>,
    eos_token_id: i32,
}

impl SimpleTokenizer {
    /// The id of each known character, keyed by code point.
    pub closed spec fn ids(&self) -> Map<u32, i32> {
        self.vocab@
    }

    /// The character of each known id.
    pub closed spec fn chars(&self) -> Map<i32, char> {
        self.reverse_vocab@
    }

    /// The end-of-sequence id.
    pub closed spec fn eos(&self) -> i32 {
        self.eos_token_id
    }

    /// Every known character's id is known and decodes to that character.
    pub open spec fn wf(&self) -> bool {
        forall|k: u32|
            #[trigger] self.ids().contains_key(k) ==> self.chars().contains_key(self.ids()[k])
                && self.chars()[self.ids()[k]] as u32 == k
    }

    /// Every known id's character is known and encodes to that id.
    pub open spec fn wf_inverse(&self) -> bool {
        forall|i: i32|
            #[trigger] self.chars().contains_key(i) ==> self.ids().contains_key(self.chars()[i] as u32)
                && self.ids()[self.chars()[i] as u32] == i
    }

    fn insert_chars(
        vocab: &mut HashMap<u32, i32>,
        reverse_vocab: &mut HashMap<i32, char>,
        chars: &[char],
        start_id: i32,
        Ghost(done): Ghost<Seq<char>>,
    )
        requires
            start_id == done.len(),
            old(vocab)@ == ids_after(done),
            old(reverse_vocab)@ == chars_after(done),
            done.len() + chars@.len() <= 1000,
        ensures
            final(vocab)@ == ids_after(done + chars@),
            final(reverse_vocab)@ == chars_after(done + chars@),
    {
        let mut i: usize = 0;
        let mut id: i32 = start_id;
        while i < chars.len()
            invariant
                i <= chars@.len(),
                done.len() + chars@.len() <= 1000,
                id == done.len() + i,
                vocab@ == ids_after(done + chars@.subrange(0, i as int)),
                reverse_vocab@ == chars_after(done + chars@.subrange(0, i as int)),
            decreases chars.len() - i,
        {
            let c = chars[i];
            let ghost next = done + chars@.subrange(0, i + 1);
            assert(next.drop_last() =~= done + chars@.subrange(0, i as int));
            assert(next.last() == c);
            vocab.insert(c as u32, id);
            reverse_vocab.insert(id, c);
            id = id + 1;
            i = i + 1;
        }
        assert(chars@.subrange(0, chars@.len() as int) =~= chars@);
    }

    /// The tokenizer over the Japanese vocabulary: `<` is 0, `>` is 1, then
    /// the hiragana, voiced hiragana and katakana in table order. The
    /// end-of-sequence id is 2.
    pub fn new_japanese() -> (t: SimpleTokenizer)
        ensures
            t.ids() == ids_after(japanese_alphabet()),
            t.chars() == chars_after(japanese_alphabet()),
            t.eos() == 2,
            t.wf(),
            t.wf_inverse(),
    {
        let basic = "あいうえおかきくけこさしすせそたちつてとなにぬねのはひふへほまみむめもやゆよらりるれろわをん";
        let voiced = "がぎぐげござじずぜぞだぢづでどばびぶべぼぱぴぷぺぽ";
        let katakana = "アイウエオカキクケコサシスセソタチツテトナニヌネノハヒフヘホマミムメモヤユヨラリルレロワヲン";
        proof {
            reveal_strlit("あいうえおかきくけこさしすせそたちつてとなにぬねのはひふへほまみむめもやゆよらりるれろわをん");
            reveal_strlit("がぎぐげござじずぜぞだぢづでどばびぶべぼぱぴぷぺぽ");
            reveal_strlit("アイウエオカキクケコサシスセソタチツテトナニヌネノハヒフヘホマミムメモヤユヨラリルレロワヲン");
        }
        let mut vocab: HashMap<u32, i32> = HashMap::new();
        let mut reverse_vocab: HashMap<i32, char> = HashMap::new();
        let markers = vec!['<', '>'];
        Self::insert_chars(&mut vocab, &mut reverse_vocab, &markers, 0, Ghost(Seq::<char>::empty()));
        let ghost done1 = Seq::<char>::empty() + markers@;
        let basic_chars = chars_of(basic);
        Self::insert_chars(&mut vocab, &mut reverse_vocab, &basic_chars, 2, Ghost(done1));
        let ghost done2 = done1 + basic_chars@;
        let voiced_chars = chars_of(voiced);
        Self::insert_chars(&mut vocab, &mut reverse_vocab, &voiced_chars, basic_chars.len() as i32 + 2, Ghost(done2));
        let ghost done3 = done2 + voiced_chars@;
        let katakana_chars = chars_of(katakana);
        Self::insert_chars(&mut vocab, &mut reverse_vocab, &katakana_chars, (basic_chars.len() + voiced_chars.len()) as i32 + 2, Ghost(done3));
        assert(done3 + katakana_chars@ =~= japanese_alphabet());
        let t = SimpleTokenizer { vocab, reverse_vocab, eos_token_id: 2 };
        proof {
            lemma_built_maps_agree(japanese_alphabet());
            lemma_alphabet_distinct();
            lemma_built_maps_inverse(japanese_alphabet());
        }
        t
    }

    /// The ids of the known characters of `text`, in order; unknown
    /// characters are skipped.
    pub fn encode(&self, text: &str) -> (ids: Vec<i32>)
        ensures
            ids@ == encode_with(self.ids(), text@),
    {
        let chars = chars_of(text);
        let mut ids: Vec<i32> = Vec::new();
        let mut i: usize = 0;
        while i < chars.len()
            invariant
                chars@ == text@,
                i <= chars@.len(),
                ids@ == encode_with(self.ids(), chars@.subrange(0, i as int)),
            decreases chars.len() - i,
        {
            let c = chars[i];
            assert(chars@.subrange(0, i + 1).drop_last() =~= chars@.subrange(0, i as int));
            match self.vocab.get(&(c as u32)) {
                Some(id) => ids.push(*id),
                None => {},
            }
            i = i + 1;
        }
        assert(chars@.subrange(0, chars@.len() as int) =~= chars@);
        ids
    }

    /// The characters of the known ids, in order; unknown ids are skipped.
    pub fn decode(&self, token_ids: &[i32]) -> (text: String)
        ensures
            text@ == decode_with(self.chars(), token_ids@),
    {
        let mut text = String::new();
        let mut i: usize = 0;
        while i < token_ids.len()
            invariant
                i <= token_ids@.len(),
                text@ == decode_with(self.chars(), token_ids@.subrange(0, i as int)),
            decreases token_ids.len() - i,
        {
            assert(token_ids@.subrange(0, i + 1).drop_last() =~= token_ids@.subrange(0, i as int));
            match self.reverse_vocab.get(&token_ids[i]) {
                Some(c) => crate::text::push_char(&mut text, *c),
                None => {},
            }
            i = i + 1;
        }
        assert(token_ids@.subrange(0, token_ids@.len() as int) =~= token_ids@);
        text
    }

    /// The end-of-sequence id.
    pub fn eos_token_id(&self) -> (id: i32)
        ensures
            id == self.eos(),
    {
        self.eos_token_id
    }
}

/// A character's code point, as stored in the vocabulary's keys, names the
/// character: distinct characters have distinct keys.
proof fn lemma_char_key(a: char, b: char)
    ensures
        (a as u32) as int == a as int,
        (a as u32 == b as u32) ==> a == b,
{
}

/// The maps built from the same characters agree: every character's id
/// names that character, and every id is a position in the characters.
proof fn lemma_built_maps_agree(chars: Seq<char>)
    requires
        chars.len() <= 1000,
    ensures
        forall|k: u32|
            #[trigger] ids_after(chars).contains_key(k) ==> {
                &&& 0 <= ids_after(chars)[k] < chars.len()
                &&& chars_after(chars).contains_key(ids_after(chars)[k])
                &&& chars_after(chars)[ids_after(chars)[k]] as u32 == k
            },
        forall|i: i32| #[trigger] chars_after(chars).contains_key(i) ==> 0 <= i < chars.len(),
    decreases chars.len(),
{
    if chars.len() > 0 {
        let prefix = chars.drop_last();
        lemma_built_maps_agree(prefix);
        lemma_char_key(chars.last(), chars.last());
        let n = (chars.len() - 1) as i32;
        assert(n == chars.len() - 1);
        assert forall|k: u32| #[trigger] ids_after(chars).contains_key(k) implies {
            &&& 0 <= ids_after(chars)[k] < chars.len()
            &&& chars_after(chars).contains_key(ids_after(chars)[k])
            &&& chars_after(chars)[ids_after(chars)[k]] as u32 == k
        } by {
            if k != chars.last() as u32 {
                assert(ids_after(prefix).contains_key(k));
            }
        }
        assert forall|i: i32| #[trigger] chars_after(chars).contains_key(i) implies 0 <= i
            < chars.len() by {
            if i != n {
                assert(chars_after(prefix).contains_key(i));
            }
        }
    }
}

/// The maps built from characters that are all different are inverse the
/// other way too: every id's character is the character at that position,
/// and its id is that position.
proof fn lemma_built_maps_inverse(chars: Seq<char>)
    requires
        chars.len() <= 1000,
        forall|i: int, j: int| 0 <= i < j < chars.len() ==> chars[i] != chars[j],
    ensures
        forall|i: i32|
            #[trigger] chars_after(chars).contains_key(i) ==> {
                &&& 0 <= i < chars.len()
                &&& chars_after(chars)[i] == chars[i as int]
                &&& ids_after(chars).contains_key(chars[i as int] as u32)
                &&& ids_after(chars)[chars[i as int] as u32] == i
            },
    decreases chars.len(),
{
    if chars.len() > 0 {
        let prefix = chars.drop_last();
        lemma_built_maps_inverse(prefix);
        let n = (chars.len() - 1) as i32;
        assert(n == chars.len() - 1);
        assert forall|i: i32| #[trigger] chars_after(chars).contains_key(i) implies {
            &&& 0 <= i < chars.len()
            &&& chars_after(chars)[i] == chars[i as int]
            &&& ids_after(chars).contains_key(chars[i as int] as u32)
            &&& ids_after(chars)[chars[i as int] as u32] == i
        } by {
            if i != n {
                assert(chars_after(prefix).contains_key(i));
                assert(prefix[i as int] == chars[i as int]);
                lemma_char_key(chars[i as int], chars.last());
                assert(chars[i as int] != chars[n as int]);
            }
        }
    }
}

/// The ids that the vocabulary knows, in order.
pub open spec fn known_ids(chars: Map<i32, char>, ids: Seq<i32>) -> Seq<i32>
    decreases ids.len(),
{
    if ids.len() == 0 {
        Seq::<i32>::empty()
    } else {
        let rest = known_ids(chars, ids.drop_last());
        if chars.contains_key(ids.last()) {
            rest.push(ids.last())
        } else {
            rest
        }
    }
}

/// Encoding the decoding of ids gives back the known ids: what the
/// tokenizer does not know is skipped, nothing else changes.
pub proof fn lemma_encode_decode(t: &SimpleTokenizer, ids: Seq<i32>)
    requires
        t.wf_inverse(),
    ensures
        encode_with(t.ids(), decode_with(t.chars(), ids)) == known_ids(t.chars(), ids),
    decreases ids.len(),
{
    if ids.len() > 0 {
        lemma_encode_decode(t, ids.drop_last());
        let rest = decode_with(t.chars(), ids.drop_last());
        let i = ids.last();
        if t.chars().contains_key(i) {
            let d = rest.push(t.chars()[i]);
            assert(d.drop_last() =~= rest);
        }
    }
}

/// Decoding the encoding of a text gives back its known characters: what
/// the tokenizer does not know is dropped, nothing else changes.
pub proof fn lemma_decode_encode(t: &SimpleTokenizer, text: Seq<char>)
    requires
        t.wf(),
    ensures
        decode_with(t.chars(), encode_with(t.ids(), text)) == known_chars(t.ids(), text),
    decreases text.len(),
{
    if text.len() > 0 {
        lemma_decode_encode(t, text.drop_last());
        let rest = encode_with(t.ids(), text.drop_last());
        let k = text.last() as u32;
        if t.ids().contains_key(k) {
            let e = rest.push(t.ids()[k]);
            assert(e.drop_last() =~= rest);
            lemma_char_key(t.chars()[t.ids()[k]], text.last());
        }
    }
}

/// Every id that `encode` yields is known to `decode`.
pub proof fn lemma_encode_ids_known(t: &SimpleTokenizer, text: Seq<char>)
    requires
        t.wf(),
    ensures
        forall|i: int|
            0 <= i < encode_with(t.ids(), text).len() ==> t.chars().contains_key(
                #[trigger] encode_with(t.ids(), text)[i],
            ),
    decreases text.len(),
{
    if text.len() > 0 {
        let rest = encode_with(t.ids(), text.drop_last());
        lemma_encode_ids_known(t, text.drop_last());
        let k = text.last() as u32;
        assert forall|i: int| 0 <= i < encode_with(t.ids(), text).len() implies t.chars().contains_key(
            #[trigger] encode_with(t.ids(), text)[i],
        ) by {
            if i < rest.len() {
                assert(encode_with(t.ids(), text)[i] == rest[i]);
            } else {
                assert(t.ids().contains_key(k));
            }
        }
    }
}

#[verifier::external_type_specification]
#[verifier::external_body]
pub struct ExHfTokenizer(HfTokenizer);

/// Whether `tokenizers` reads the bytes as a tokenizer definition
/// (`Tokenizer::from_bytes` succeeds).
pub uninterp spec fn hf_loads(definition: Seq<u8>) -> bool;

/// Whether `Tokenizer::encode` of the tokenizer read from the definition
/// may give this outcome for the text, with or without special tokens
/// added: the ids, or `None` for an error. A definition that asks for BPE
/// dropout draws at random, so this names the set of outcomes, which
/// depends on the arguments alone.
pub uninterp spec fn hf_may_encode(definition: Seq<u8>, text: Seq<char>, add_special_tokens: bool, outcome: Option<Seq<u32>>) -> bool;

/// Whether `Tokenizer::decode` of the tokenizer read from the definition
/// may give this outcome for the ids: the text, or `None` for an error. A
/// definition may give two tokens one id, and the table from ids to tokens
/// is built by walking a randomly seeded hash map, so this names the set of
/// outcomes, which depends on the arguments alone.
pub uninterp spec fn hf_may_decode(definition: Seq<u8>, ids: Seq<u32>, skip_special_tokens: bool, outcome: Option<Seq<char>>) -> bool;

/// What `Tokenizer::get_vocab_size` gives.
pub uninterp spec fn hf_vocab_size(definition: Seq<u8>, with_added_tokens: bool) -> nat;

/// Whether `Tokenizer::id_to_token` of the tokenizer read from the
/// definition may give this token (or `None`) for the id. As for decoding,
/// a definition may give two tokens one id, and which one the table holds
/// depends on a randomly seeded hash map, so this names the set of answers.
pub uninterp spec fn hf_may_name(definition: Seq<u8>, id: u32, token: Option<Seq<char>>) -> bool;

/// What `Tokenizer::token_to_id` gives.
pub uninterp spec fn hf_token_to_id(definition: Seq<u8>, token: Seq<char>) -> Option<u32>;

/// `Tokenizer::from_bytes`: reads a tokenizer from its JSON definition;
/// success is named by `hf_loads` of the bytes, and an error comes back as
/// its message.
#[verifier::external_body]
fn hf_from_bytes(definition: &[u8]) -> (r: Result<HfTokenizer, String>)
    ensures
        r is Ok <==> hf_loads(definition@),
{
    HfTokenizer::from_bytes(definition).map_err(|e| e.to_string())
}

/// `Tokenizer::encode` followed by `Encoding::get_ids`: the outcome is one
/// of those that `hf_may_encode` names for the definition, the text and the
/// flag, an error being the outcome `None`. Which of them comes back is not
/// stated (BPE dropout draws at random).
#[verifier::external_body]
fn hf_encode(t: &Tokenizer, text: &str, add_special_tokens: bool) -> (r: Result<Vec<u32>, String>)
    ensures
        match r {
            Ok(raw) => hf_may_encode(t.definition(), text@, add_special_tokens, Some(raw@)),
            Err(_) => hf_may_encode(t.definition(), text@, add_special_tokens, None),
        },
{
    t.tokenizer.encode(text, add_special_tokens).map(|e| e.get_ids().to_vec()).map_err(|e| e.to_string())
}

/// `Tokenizer::decode`: the text of the ids, one of the outcomes that
/// `hf_may_decode` names for the definition the tokenizer was read from,
/// the ids and the flag; an error is the outcome `None`.
#[verifier::external_body]
fn hf_decode_ids(t: &Tokenizer, ids: &[u32], skip_special_tokens: bool) -> (r: Result<String, String>)
    ensures
        match r {
            Ok(s) => hf_may_decode(t.definition(), ids@, skip_special_tokens, Some(s@)),
            Err(_) => hf_may_decode(t.definition(), ids@, skip_special_tokens, None),
        },
{
    t.tokenizer.decode(ids, skip_special_tokens).map_err(|e| e.to_string())
}

/// `Tokenizer::get_vocab_size`.
#[verifier::external_body]
fn hf_get_vocab_size(t: &Tokenizer, with_added_tokens: bool) -> (n: usize)
    ensures
        n == hf_vocab_size(t.definition(), with_added_tokens),
{
    t.tokenizer.get_vocab_size(with_added_tokens)
}

/// `Tokenizer::id_to_token`.
#[verifier::external_body]
fn hf_id_to_token_of(t: &Tokenizer, id: u32) -> (r: Option<String>)
    ensures
        match r {
            Some(s) => hf_may_name(t.definition(), id, Some(s@)),
            None => hf_may_name(t.definition(), id, None),
        },
{
    t.tokenizer.id_to_token(id)
}

/// `Tokenizer::token_to_id`.
#[verifier::external_body]
fn hf_token_to_id_of(t: &Tokenizer, token: &str) -> (r: Option<u32>)
    ensures
        r == hf_token_to_id(t.definition(), token@),
{
    t.tokenizer.token_to_id(token)
}

/// The ids as the model's `i32` token ids.
pub open spec fn as_token_ids(ids: Seq<u32>) -> Seq<i32> {
    ids.map_values(|i: u32| i as i32)
}

/// The model's `i32` token ids as the tokenizer's ids.
pub open spec fn as_vocab_ids(ids: Seq<i32>) -> Seq<u32> {
    ids.map_values(|i: i32| i as u32)
}

/// The tokenizer's ids as the model's `i32` token ids, one for one.
pub fn to_model_ids(raw: &[u32]) -> (ids: Vec<i32>)
    ensures
        ids@ == as_token_ids(raw@),
{
    let mut ids: Vec<i32> = Vec::new();
    let mut i: usize = 0;
    while i < raw.len()
        invariant
            i <= raw@.len(),
            ids@ == as_token_ids(raw@.subrange(0, i as int)),
        decreases raw.len() - i,
    {
        ids.push(raw[i] as i32);
        i = i + 1;
        assert(ids@ =~= as_token_ids(raw@.subrange(0, i as int)));
    }
    assert(raw@.subrange(0, raw@.len() as int) =~= raw@);
    ids
}

/// The model's `i32` token ids as the tokenizer's ids, one for one.
pub fn to_vocab_ids(token_ids: &[i32]) -> (ids: Vec<u32>)
    ensures
        ids@ == as_vocab_ids(token_ids@),
{
    let mut ids: Vec<u32> = Vec::new();
    let mut i: usize = 0;
    while i < token_ids.len()
        invariant
            i <= token_ids@.len(),
            ids@ == as_vocab_ids(token_ids@.subrange(0, i as int)),
        decreases token_ids.len() - i,
    {
        ids.push(token_ids[i] as u32);
        i = i + 1;
        assert(ids@ =~= as_vocab_ids(token_ids@.subrange(0, i as int)));
    }
    assert(token_ids@.subrange(0, token_ids@.len() as int) =~= token_ids@);
    ids
}

/// A speech model's tokenizer, read from its JSON definition.
pub struct Tokenizer {
    tokenizer: HfTokenizer,
    definition: Ghost<Seq<u8>>,
    eos_token_id: i32,
    bos_token_id: i32,
}

impl Tokenizer {
    /// The JSON definition the tokenizer was read from.
    pub closed spec fn definition(&self) -> Seq<u8> {
        self.definition@
    }

    /// The end-of-sequence id.
    pub closed spec fn eos(&self) -> i32 {
        self.eos_token_id
    }

    /// The start-of-sequence id.
    pub closed spec fn bos(&self) -> i32 {
        self.bos_token_id
    }

    /// Reads a tokenizer from its JSON definition, with 2 as the
    /// end-of-sequence id and 1 as the start-of-sequence id; a definition
    /// that does not read is a tokenization error.
    pub fn from_bytes(definition: &[u8]) -> (r: Result<Tokenizer, ShuseiError>)
        ensures
            r is Ok <==> hf_loads(definition@),
            r matches Ok(t) ==> t.definition() == definition@ && t.eos() == 2 && t.bos() == 1,
            r matches Err(e) ==> e matches ShuseiError::Stt(SttError::Tokenization(m))
                && "Failed to load tokenizer: "@.is_prefix_of(m@),
    {
        match hf_from_bytes(definition) {
            Ok(tokenizer) => Ok(
                Tokenizer { tokenizer, definition: Ghost(definition@), eos_token_id: 2, bos_token_id: 1 },
            ),
            Err(e) => Err(ShuseiError::Stt(SttError::Tokenization(prefixed("Failed to load tokenizer: ", e)))),
        }
    }

    /// The ids of a text, without special tokens added, as the model's ids:
    /// an encoding `tokenizers` may give for the text, each id as `i32`, or
    /// an error where it may fail on the text.
    pub fn encode(&self, text: &str) -> (r: Result<Vec<i32>, ShuseiError>)
        ensures
            r matches Ok(ids) ==> exists|raw: Seq<u32>|
                #[trigger] hf_may_encode(self.definition(), text@, false, Some(raw)) && ids@ == as_token_ids(raw),
            r matches Err(e) ==> hf_may_encode(self.definition(), text@, false, None),
            r matches Err(e) ==> e matches ShuseiError::Stt(SttError::Tokenization(m))
                && "Encoding failed: "@.is_prefix_of(m@),
    {
        match hf_encode(self, text, false) {
            Ok(raw) => {
                let ids = to_model_ids(&raw);
                assert(hf_may_encode(self.definition(), text@, false, Some(raw@)));
                Ok(ids)
            },
            Err(e) => Err(ShuseiError::Stt(SttError::Tokenization(prefixed("Encoding failed: ", e)))),
        }
    }

    /// The text of the model's ids, without special tokens: a text that
    /// `tokenizers` may give for the ids taken as its own, or an error when
    /// it may fail on them.
    pub fn decode(&self, token_ids: &[i32]) -> (r: Result<String, ShuseiError>)
        ensures
            r matches Ok(s) ==> hf_may_decode(self.definition(), as_vocab_ids(token_ids@), true, Some(s@)),
            r matches Err(e) ==> hf_may_decode(self.definition(), as_vocab_ids(token_ids@), true, None),
            r matches Err(e) ==> e matches ShuseiError::Stt(SttError::Tokenization(m))
                && "Decoding failed: "@.is_prefix_of(m@),
    {
        let ids = to_vocab_ids(token_ids);
        match hf_decode_ids(self, &ids, true) {
            Ok(text) => Ok(text),
            Err(e) => Err(ShuseiError::Stt(SttError::Tokenization(prefixed("Decoding failed: ", e)))),
        }
    }

    /// The end-of-sequence id.
    pub fn eos_token_id(&self) -> (id: i32)
        ensures
            id == self.eos(),
    {
        self.eos_token_id
    }

    /// The start-of-sequence id.
    pub fn bos_token_id(&self) -> (id: i32)
        ensures
            id == self.bos(),
    {
        self.bos_token_id
    }

    /// The size of the vocabulary, without added tokens.
    pub fn vocab_size(&self) -> (n: usize)
        ensures
            n == hf_vocab_size(self.definition(), false),
    {
        hf_get_vocab_size(self, false)
    }

    /// The token of a model id: one that `tokenizers` may give for the id
    /// taken as its own, or none when it may give none.
    pub fn id_to_token(&self, id: i32) -> (r: Option<String>)
        ensures
            match r {
                Some(s) => hf_may_name(self.definition(), id as u32, Some(s@)),
                None => hf_may_name(self.definition(), id as u32, None),
            },
    {
        hf_id_to_token_of(self, id as u32)
    }

    /// The model id of a token.
    pub fn token_to_id(&self, token: &str) -> (r: Option<i32>)
        ensures
            r == match hf_token_to_id(self.definition(), token@) {
                Some(i) => Some(i as i32),
                None => None::<i32>,
            },
    {
        match hf_token_to_id_of(self, token) {
            Some(i) => Some(i as i32),
            None => None,
        }
    }
}

/// A message made of a prefix and a detail.
fn prefixed(prefix: &str, detail: String) -> (m: String)
    ensures
        m@ == prefix@ + detail@,
        prefix@.is_prefix_of(m@),
{
    let mut m = String::from_str(prefix);
    push_str(&mut m, detail.as_str());
    assert(m@.subrange(0, prefix@.len() as int) =~= prefix@);
    m
}

} // verus!
