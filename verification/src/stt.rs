//! The speech pipeline's settings and the bookkeeping of its decoder: the
//! key-value cache and the state of autoregressive decoding.
//!
//! The cache stores rows of any type; the application stores the model's
//! float vectors in it.
use vstd::prelude::*;
use crate::error::{SttError, ShuseiError};
use crate::text::{decimal, push_str, push_unsigned};
use crate::storage::{join_path, path_join};

verus! {

/// A language the speech model transcribes.
#[derive(Debug, Clone, Copy, PartialEq, Eq, Structural)]
pub enum Language {
    English,
    Japanese,
}

impl Default for Language {
    /// Japanese.
    fn default() -> (l: Language)
        ensures
            l == Language::Japanese,
    {
        Language::Japanese
    }
}

/// Settings of the speech pipeline.
#[derive(Debug, Clone)]
pub struct SttConfig {
    /// The longest audio accepted, in seconds.
    pub max_duration_seconds: u32,
    /// The sample rate the model expects.
    pub sample_rate: u32,
    /// The number of audio channels.
    pub channels: u16,
    /// The language to transcribe.
    pub language: Language,
    /// The most decoder steps taken.
    pub max_decoder_steps: usize,
}

impl Default for SttConfig {
    /// 30 seconds of 16 kHz mono Japanese audio, at most 512 decoder steps.
    fn default() -> (c: SttConfig)
        ensures
            c.max_duration_seconds == 30,
            c.sample_rate == 16000,
            c.channels == 1,
            c.language == Language::Japanese,
            c.max_decoder_steps == 512,
    {
        SttConfig {
            max_duration_seconds: 30,
            sample_rate: 16000,
            channels: 1,
            language: Language::Japanese,
            max_decoder_steps: 512,
        }
    }
}

/// The keys and values that one layer of the decoder has cached.
#[derive(Debug, Clone)]
pub struct CacheLayer<T> {
    pub key: Vec<T>,
    pub value: Vec<T>,
}

/// The key-value cache of autoregressive decoding: one layer per decoder
/// layer, each holding at most `max_seq_len` keys.
#[derive(Debug, Clone)]
pub struct KvCache<T> {
    layers: Vec<CacheLayer<T>>,
    max_seq_len: usize,
}

/// The rows that `append` adds to a layer holding `held` keys: as many of
/// the new ones, from the first, as still fit.
pub open spec fn admitted(held: nat, max_seq_len: nat, offered: nat) -> nat {
    if held >= max_seq_len {
        0
    } else if offered <= max_seq_len - held {
        offered
    } else {
        (max_seq_len - held) as nat
    }
}

impl<T: Clone> KvCache<T> {
    /// The cached layers.
    pub closed spec fn layers(&self) -> Seq<CacheLayer<T>> {
        self.layers@
    }

    /// The most keys a layer holds.
    pub closed spec fn capacity(&self) -> nat {
        self.max_seq_len as nat
    }

    /// No layer holds more keys than the capacity.
    pub open spec fn wf(&self) -> bool {
        forall|i: int| 0 <= i < self.layers().len() ==> #[trigger] self.layers()[i].key@.len() <= self.capacity()
    }

    /// An empty cache of `num_layers` layers, each holding at most
    /// `max_seq_len` keys. The other dimensions describe the rows, which the
    /// caller builds.
    pub fn new(num_layers: usize, num_heads: usize, head_dim: usize, max_seq_len: usize) -> (c: Self)
        ensures
            c.wf(),
            c.layers().len() == num_layers,
            c.capacity() == max_seq_len,
            forall|i: int|
                0 <= i < num_layers ==> (#[trigger] c.layers()[i]).key@.len() == 0
                    && c.layers()[i].value@.len() == 0,
    {
        let mut layers: Vec<CacheLayer<T>> = Vec::new();
        let mut i: usize = 0;
        while i < num_layers
            invariant
                i <= num_layers,
                layers@.len() == i,
                forall|k: int|
                    0 <= k < i ==> (#[trigger] layers@[k]).key@.len() == 0 && layers@[k].value@.len()
                        == 0,
            decreases num_layers - i,
        {
            layers.push(CacheLayer { key: Vec::new(), value: Vec::new() });
            i = i + 1;
        }
        KvCache { layers, max_seq_len }
    }

    /// The number of keys cached in the first layer, 0 without layers.
    pub fn seq_len(&self) -> (n: usize)
        ensures
            n == if self.layers().len() == 0 { 0 } else { self.layers()[0].key@.len() },
    {
        if self.layers.len() == 0 {
            0
        } else {
            self.layers[0].key.len()
        }
    }

    /// Appends keys and values to the layer `layer_idx`: the keys, from the
    /// first, as long as the layer has room, each with the value of the same
    /// position where there is one. A layer index out of range is an error,
    /// and then nothing changes.
    pub fn append(&mut self, layer_idx: usize, keys: &[T], values: &[T]) -> (r: Result<(), ShuseiError>)
        requires
            old(self).wf(),
        ensures
            final(self).wf(),
            final(self).capacity() == old(self).capacity(),
            final(self).layers().len() == old(self).layers().len(),
            layer_idx >= old(self).layers().len() ==> {
                &&& r == Err::<(), ShuseiError>(
                    ShuseiError::Stt(SttError::KvCache(r->Err_0->Stt_0->KvCache_0)),
                )
                &&& r->Err_0->Stt_0->KvCache_0@ == "Invalid layer index: "@ + decimal(layer_idx as int)
                    + " >= "@ + decimal(old(self).layers().len() as int)
                &&& final(self).layers() == old(self).layers()
            },
            layer_idx < old(self).layers().len() ==> {
                let before = old(self).layers()[layer_idx as int];
                let after = final(self).layers()[layer_idx as int];
                let n = admitted(before.key@.len(), old(self).capacity(), keys@.len());
                let m = if n <= values@.len() { n } else { values@.len() };
                &&& r is Ok
                &&& after.key@.len() == before.key@.len() + n
                &&& after.key@.subrange(0, before.key@.len() as int) == before.key@
                &&& forall|j: int|
                    0 <= j < n ==> cloned(keys@[j], #[trigger] after.key@[before.key@.len() + j])
                &&& after.value@.len() == before.value@.len() + m
                &&& after.value@.subrange(0, before.value@.len() as int) == before.value@
                &&& forall|j: int|
                    0 <= j < m ==> cloned(values@[j], #[trigger] after.value@[before.value@.len() + j])
                &&& forall|i: int|
                    0 <= i < old(self).layers().len() && i != layer_idx ==> #[trigger] final(self).layers()[i]
                        == old(self).layers()[i]
            },
    {
        if layer_idx >= self.layers.len() {
            let mut msg = String::new();
            push_str(&mut msg, "Invalid layer index: ");
            push_unsigned(&mut msg, layer_idx as u64);
            push_str(&mut msg, " >= ");
            push_unsigned(&mut msg, self.layers.len() as u64);
            return Err(ShuseiError::Stt(SttError::KvCache(msg)));
        }
        let ghost old_layers = self.layers@;
        let mut layer = CacheLayer { key: Vec::new(), value: Vec::new() };
        std::mem::swap(&mut layer, &mut self.layers[layer_idx]);
        let ghost before = layer;
        let max = self.max_seq_len;
        let ghost n = admitted(before.key@.len(), max as nat, keys@.len());
        let mut i: usize = 0;
        while i < keys.len()
            invariant
                i <= keys@.len(),
                before.key@.len() <= max,
                layer.key@.len() == before.key@.len() + admitted(before.key@.len(), max as nat, i as nat),
                layer.key@.subrange(0, before.key@.len() as int) == before.key@,
                forall|j: int|
                    0 <= j < admitted(before.key@.len(), max as nat, i as nat) ==> cloned(
                        keys@[j],
                        #[trigger] layer.key@[before.key@.len() + j],
                    ),
                layer.value@.len() == before.value@.len() + {
                    let a = admitted(before.key@.len(), max as nat, i as nat);
                    if a <= values@.len() { a } else { values@.len() }
                },
                layer.value@.subrange(0, before.value@.len() as int) == before.value@,
                forall|j: int|
                    0 <= j < admitted(before.key@.len(), max as nat, i as nat) && j < values@.len()
                        ==> cloned(values@[j], #[trigger] layer.value@[before.value@.len() + j]),
            decreases keys.len() - i,
        {
            if layer.key.len() < max {
                let k = keys[i].clone();
                layer.key.push(k);
                if i < values.len() {
                    let v = values[i].clone();
                    layer.value.push(v);
                }
            }
            i = i + 1;
        }
        std::mem::swap(&mut layer, &mut self.layers[layer_idx]);
        proof {
            assert forall|i: int| 0 <= i < self.layers@.len() implies #[trigger] self.layers@[i].key@.len()
                <= self.max_seq_len by {
                if i != layer_idx {
                    assert(self.layers@[i] == old_layers[i]);
                }
            }
        }
        Ok(())
    }

    /// Empties every layer.
    pub fn clear(&mut self)
        requires
            old(self).wf(),
        ensures
            final(self).wf(),
            final(self).capacity() == old(self).capacity(),
            final(self).layers().len() == old(self).layers().len(),
            forall|i: int|
                0 <= i < final(self).layers().len() ==> (#[trigger] final(self).layers()[i]).key@.len() == 0
                    && final(self).layers()[i].value@.len() == 0,
    {
        let n = self.layers.len();
        let ghost cap = self.max_seq_len;
        let mut i: usize = 0;
        while i < n
            invariant
                i <= n == self.layers@.len(),
                self.max_seq_len == cap,
                forall|k: int|
                    0 <= k < i ==> (#[trigger] self.layers@[k]).key@.len() == 0
                        && self.layers@[k].value@.len() == 0,
            decreases n - i,
        {
            let mut emptied = CacheLayer { key: Vec::new(), value: Vec::new() };
            std::mem::swap(&mut emptied, &mut self.layers[i]);
            i = i + 1;
        }
    }

    /// Whether no layer holds a key.
    pub fn is_empty(&self) -> (b: bool)
        ensures
            b == (forall|i: int| 0 <= i < self.layers().len() ==> (#[trigger] self.layers()[i]).key@.len() == 0),
    {
        let mut i: usize = 0;
        while i < self.layers.len()
            invariant
                i <= self.layers@.len(),
                forall|k: int| 0 <= k < i ==> (#[trigger] self.layers@[k]).key@.len() == 0,
            decreases self.layers.len() - i,
        {
            if self.layers[i].key.len() != 0 {
                assert(self.layers()[i as int].key@.len() != 0);
                return false;
            }
            i = i + 1;
        }
        true
    }
}

/// The state of autoregressive decoding.
#[derive(Debug)]
pub struct DecoderState<T> {
    /// The number of tokens decoded.
    pub position: usize,
    /// The key-value cache.
    pub kv_cache: KvCache<T>,
    /// The tokens decoded so far.
    pub tokens: Vec<i32>,
    /// Whether the end of the sequence was reached.
    pub finished: bool,
}

/// Whether decoding stops: it has finished, the last token is the end of
/// the sequence, or `max_steps` tokens were decoded.
pub open spec fn stops(finished: bool, tokens: Seq<i32>, position: nat, eos_token: i32, max_steps: nat) -> bool {
    finished || (tokens.len() > 0 && tokens.last() == eos_token) || position >= max_steps
}

impl<T> DecoderState<T> {
    /// A fresh state at position 0 with no tokens, over the given cache.
    pub fn new(kv_cache: KvCache<T>) -> (s: Self)
        ensures
            s.position == 0,
            s.tokens@.len() == 0,
            !s.finished,
            s.kv_cache == kv_cache,
    {
        DecoderState { position: 0, kv_cache, tokens: Vec::new(), finished: false }
    }

    /// Appends a decoded token and moves to the next position.
    pub fn append_token(&mut self, token: i32)
        requires
            old(self).position < usize::MAX,
        ensures
            final(self).tokens@ == old(self).tokens@.push(token),
            final(self).position == old(self).position + 1,
            final(self).finished == old(self).finished,
            final(self).kv_cache == old(self).kv_cache,
    {
        self.tokens.push(token);
        self.position = self.position + 1;
    }

    /// Whether decoding stops.
    pub fn should_stop(&self, eos_token: i32, max_steps: usize) -> (b: bool)
        ensures
            b == stops(self.finished, self.tokens@, self.position as nat, eos_token, max_steps as nat),
    {
        let last_is_eos = if self.tokens.len() > 0 {
            self.tokens[self.tokens.len() - 1] == eos_token
        } else {
            false
        };
        self.finished || last_is_eos || self.position >= max_steps
    }
}

/// Decoding stops right after the end-of-sequence token is appended, and a
/// state that stops because it used up its steps still stops after any
/// further token.
pub proof fn lemma_stops_after_append(
    finished: bool,
    tokens: Seq<i32>,
    position: nat,
    token: i32,
    eos_token: i32,
    max_steps: nat,
)
    ensures
        token == eos_token ==> stops(finished, tokens.push(token), position + 1, eos_token, max_steps),
        position >= max_steps ==> stops(finished, tokens.push(token), position + 1, eos_token, max_steps),
{
}

/// The text of a transcription: nothing for no tokens, otherwise the number
/// of tokens in brackets.
pub fn transcript_text(tokens: &[i32]) -> (text: String)
    ensures
        text@ == if tokens@.len() == 0 {
            Seq::<char>::empty()
        } else {
            "["@ + decimal(tokens@.len() as int) + " tokens]"@
        },
{
    let mut text = String::new();
    if tokens.len() > 0 {
        push_str(&mut text, "[");
        push_unsigned(&mut text, tokens.len() as u64);
        push_str(&mut text, " tokens]");
    }
    text
}

/// The files of the speech models in their model directory: the encoder
/// and the decoder.
pub fn stt_model_files(model_dir: &str) -> (files: (String, String))
    ensures
        files.0@ == path_join(model_dir@, "encoder.onnx"@),
        files.1@ == path_join(model_dir@, "decoder.onnx"@),
{
    (join_path(model_dir, "encoder.onnx"), join_path(model_dir, "decoder.onnx"))
}

/// Transcribing needs an initialised engine.
pub fn check_stt_engine_initialized(initialized: bool) -> (r: Result<(), ShuseiError>)
    ensures
        r is Ok <==> initialized,
        r matches Err(e) ==> e matches ShuseiError::Stt(SttError::Decoder(m)) && m@ == "Engine not initialized"@,
{
    if initialized {
        Ok(())
    } else {
        Err(ShuseiError::Stt(SttError::Decoder(String::from_str("Engine not initialized"))))
    }
}

/// Whether audio of `len` samples can be turned into a spectrogram: it must
/// hold at least one window of samples.
pub fn check_audio_length(len: usize, window_size: usize) -> (r: Result<(), ShuseiError>)
    ensures
        r is Ok <==> len > 0 && len >= window_size,
        len == 0 ==> (r matches Err(e) && e matches ShuseiError::Stt(SttError::Preprocessing(m))
            && m@ == "Empty audio input"@),
        0 < len < window_size ==> (r matches Err(e) && e matches ShuseiError::Stt(SttError::Preprocessing(m))
            && m@ == "Audio too short: "@ + decimal(len as int) + " samples (minimum: "@ + decimal(
            window_size as int,
        ) + ")"@),
{
    if len == 0 {
        return Err(ShuseiError::Stt(SttError::Preprocessing(String::from_str("Empty audio input"))));
    }
    if len < window_size {
        let mut m = String::from_str("Audio too short: ");
        push_unsigned(&mut m, len as u64);
        push_str(&mut m, " samples (minimum: ");
        push_unsigned(&mut m, window_size as u64);
        push_str(&mut m, ")");
        return Err(ShuseiError::Stt(SttError::Preprocessing(m)));
    }
    Ok(())
}

/// The number of analysis frames of `len` samples: one per hop while a
/// whole window fits.
pub fn frame_count(len: usize, window_size: usize, hop_length: usize) -> (n: usize)
    requires
        len >= window_size,
        hop_length > 0,
        (len - window_size) / (hop_length as int) < usize::MAX,
    ensures
        n == (len - window_size) / (hop_length as int) + 1,
        (n - 1) * hop_length + window_size <= len,
        n * hop_length + window_size > len,
{
    let n = (len - window_size) / hop_length + 1;
    assert((n - 1) * hop_length + window_size <= len) by (nonlinear_arith)
        requires
            n == (len - window_size) / (hop_length as int) + 1,
            hop_length > 0,
            len >= window_size,
    ;
    assert(n * hop_length + window_size > len) by (nonlinear_arith)
        requires
            n == (len - window_size) / (hop_length as int) + 1,
            hop_length > 0,
            len >= window_size,
    ;
    n
}

} // verus!
