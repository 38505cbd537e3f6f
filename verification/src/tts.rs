//! The text-to-speech service's own rules: the languages it speaks, the checks a
//! synthesis request goes through, the defaults of its parameters, the WAV
//! container its audio is returned in, and the names of the files it writes.
//! The synthesis engine, floating-point samples and file I/O stay with the caller.
use vstd::prelude::*;

use byteorder::{ByteOrder, LittleEndian};

use crate::text::{chars_of, decimal, owned, push_char, push_decimal, push_str};

verus! {

// ---------------------------------------------------------------------------
// Languages
// ---------------------------------------------------------------------------

/// A language the service offers.
#[derive(Debug, Clone)]
pub struct LanguageInfo {
    pub code: String,
    pub name: String,
}

/// The answer to a language list request.
#[derive(Debug, Clone)]
pub struct LanguageListResponse {
    pub languages: Vec<LanguageInfo>,
}

/// A language list request (it carries nothing).
#[derive(Debug, Clone)]
pub struct LanguageListRequest {}

/// The answer of a node's health endpoint.
#[derive(Debug, Clone)]
pub struct HealthResponse {
    pub status: String,
    pub node_id: String,
}

/// The answer to a `tts.health` action.
#[derive(Debug, Clone)]
pub struct ServiceHealth {
    pub status: String,
    pub tts_engine_loaded: bool,
    pub voice_style_loaded: bool,
}

/// The answer to a `tts.health` action: the service is healthy, and says whether
/// its engine and its voice style are loaded.
pub fn service_health(engine_loaded: bool, voice_loaded: bool) -> (h: ServiceHealth)
    ensures
        h.status@ == "healthy"@,
        h.tts_engine_loaded == engine_loaded,
        h.voice_style_loaded == voice_loaded,
{
    ServiceHealth { status: owned("healthy"), tts_engine_loaded: engine_loaded, voice_style_loaded: voice_loaded }
}

/// The answer of a node's health endpoint: the node is up.
pub fn node_health(node_id: &str) -> (h: HealthResponse)
    ensures
        h.status@ == "ok"@,
        h.node_id@ == node_id@,
{
    HealthResponse { status: owned("ok"), node_id: owned(node_id) }
}

/// The codes of the languages the service speaks, in the order they are listed.
pub open spec fn lang_codes() -> Seq<Seq<char>> {
    seq!["en"@, "ko"@, "es"@, "pt"@, "fr"@]
}

/// The names of the languages the service speaks, in the same order.
pub open spec fn lang_names() -> Seq<Seq<char>> {
    seq!["English"@, "Korean"@, "Spanish"@, "Portuguese"@, "French"@]
}

/// `lang` is one of the codes the service speaks.
pub open spec fn spec_is_valid_lang(lang: Seq<char>) -> bool {
    lang_codes().contains(lang)
}

fn language(code: &str, name: &str) -> (l: LanguageInfo)
    ensures
        l.code@ == code@,
        l.name@ == name@,
{
    LanguageInfo { code: owned(code), name: owned(name) }
}

/// The languages the service speaks, with their names.
pub fn available_languages() -> (v: Vec<LanguageInfo>)
    ensures
        v@.len() == lang_codes().len(),
        forall|i: int| #![trigger v@[i]] 0 <= i < v@.len() ==> v@[i].code@ == lang_codes()[i] && v@[i].name@
            == lang_names()[i],
{
    let mut v: Vec<LanguageInfo> = Vec::new();
    v.push(language("en", "English"));
    v.push(language("ko", "Korean"));
    v.push(language("es", "Spanish"));
    v.push(language("pt", "Portuguese"));
    v.push(language("fr", "French"));
    v
}

/// The answer to a language list request.
pub fn list_languages() -> (r: LanguageListResponse)
    ensures
        r.languages@.len() == lang_codes().len(),
        forall|i: int| #![trigger r.languages@[i]] 0 <= i < r.languages@.len() ==> r.languages@[i].code@ == lang_codes()[i]
            && r.languages@[i].name@ == lang_names()[i],
{
    LanguageListResponse { languages: available_languages() }
}

/// `lang` is one of the codes the service speaks.
pub fn is_valid_lang(lang: &str) -> (b: bool)
    ensures
        b == spec_is_valid_lang(lang@),
{
    let l = owned(lang);
    let en = owned("en");
    let ko = owned("ko");
    let es = owned("es");
    let pt = owned("pt");
    let fr = owned("fr");
    let b = l == en || l == ko || l == es || l == pt || l == fr;
    proof {
        if b {
            if l@ == "en"@ {
                assert(lang_codes()[0] == lang@);
            } else if l@ == "ko"@ {
                assert(lang_codes()[1] == lang@);
            } else if l@ == "es"@ {
                assert(lang_codes()[2] == lang@);
            } else if l@ == "pt"@ {
                assert(lang_codes()[3] == lang@);
            } else {
                assert(lang_codes()[4] == lang@);
            }
        }
    }
    b
}

/// The codes listed by the language list are exactly those a request may name.
pub proof fn law_listed_languages_are_valid(lang: Seq<char>)
    ensures
        spec_is_valid_lang(lang) <==> exists|i: int| 0 <= i < lang_codes().len() && lang_codes()[i] == lang,
{
}

/// The message a request in an unknown language is refused with.
pub open spec fn spec_invalid_language_message(lang: Seq<char>) -> Seq<char> {
    "Invalid language: "@ + lang + ". Available: [\"en\", \"ko\", \"es\", \"pt\", \"fr\"]"@
}

/// The message a request in an unknown language is refused with; it lists the
/// languages the service speaks.
pub fn invalid_language_message(lang: &str) -> (m: String)
    ensures
        m@ == spec_invalid_language_message(lang@),
{
    let mut m = String::new();
    push_str(&mut m, "Invalid language: ");
    push_str(&mut m, lang);
    push_str(&mut m, ". Available: [\"en\", \"ko\", \"es\", \"pt\", \"fr\"]");
    assert(m@ =~= spec_invalid_language_message(lang@));
    m
}

/// The checks a synthesis request goes through before the engine runs, in their
/// order: the language must be one the service speaks, the engine must be loaded,
/// the voice style must be loaded. The error is the message returned to the caller.
pub fn synthesis_precheck(lang: &str, engine_loaded: bool, voice_loaded: bool) -> (r: Result<(), String>)
    ensures
        r is Ok <==> spec_is_valid_lang(lang@) && engine_loaded && voice_loaded,
        r matches Err(m) ==> m@ == (if !spec_is_valid_lang(lang@) {
            spec_invalid_language_message(lang@)
        } else if !engine_loaded {
            "TTS engine not initialized"@
        } else {
            "Voice style not initialized"@
        }),
{
    if !is_valid_lang(lang) {
        Err(invalid_language_message(lang))
    } else if !engine_loaded {
        Err(owned("TTS engine not initialized"))
    } else if !voice_loaded {
        Err(owned("Voice style not initialized"))
    } else {
        Ok(())
    }
}

/// The message a failed synthesis is reported with.
pub fn synthesis_failed_message(engine_error: &str) -> (m: String)
    ensures
        m@ == "Synthesis failed: "@ + engine_error@,
{
    let mut m = String::new();
    push_str(&mut m, "Synthesis failed: ");
    push_str(&mut m, engine_error);
    m
}

// ---------------------------------------------------------------------------
// Defaults
// ---------------------------------------------------------------------------

/// The language of a request that names none: `en`.
pub fn default_lang() -> (l: String)
    ensures
        l@ == "en"@,
{
    owned("en")
}

/// The number of denoising steps of a direct request that names none.
pub fn default_denoising_steps_val() -> (n: usize)
    ensures
        n == 4,
{
    4
}

/// The number of denoising steps of a service request that names none.
pub fn default_denoising_steps() -> (n: Option<usize>)
    ensures
        n == Some(4usize),
{
    Some(4)
}

/// The number of denoising steps a request is synthesized with: the number it
/// names, or else the number the service is configured with.
pub fn resolve_denoising_steps(requested: Option<usize>, configured: usize) -> (n: usize)
    ensures
        n == (match requested {
            Some(k) => k,
            None => configured,
        }),
{
    match requested {
        Some(k) => k,
        None => configured,
    }
}

// ---------------------------------------------------------------------------
// WAV container
// ---------------------------------------------------------------------------

/// `n` as two little-endian bytes.
pub open spec fn le16(n: nat) -> Seq<u8> {
    seq![(n % 256) as u8, ((n / 256) % 256) as u8]
}

/// `n` as four little-endian bytes.
pub open spec fn le32(n: nat) -> Seq<u8> {
    seq![
        (n % 256) as u8,
        ((n / 256) % 256) as u8,
        ((n / 65536) % 256) as u8,
        ((n / 16777216) % 256) as u8,
    ]
}

/// A 16-bit sample as two little-endian bytes of its two's complement.
pub open spec fn sample_le(x: i16) -> Seq<u8> {
    le16((if x < 0 { x + 65536 } else { x as int }) as nat)
}

/// The samples, each as two little-endian bytes, in order.
pub open spec fn samples_le(pcm: Seq<i16>) -> Seq<u8>
    decreases pcm.len(),
{
    if pcm.len() == 0 {
        Seq::empty()
    } else {
        samples_le(pcm.drop_last()) + sample_le(pcm.last())
    }
}

/// A mono 16-bit PCM WAV file holding `pcm` at `sample_rate` samples per second:
/// the RIFF header, the `fmt ` chunk and the `data` chunk.
pub open spec fn wav_spec(pcm: Seq<i16>, sample_rate: nat) -> Seq<u8> {
    let data_size = 2 * pcm.len();
    seq![82u8, 73, 70, 70] + le32(36 + data_size) + seq![87u8, 65, 86, 69] + seq![
        102u8,
        109,
        116,
        32,
    ] + le32(16) + le16(1) + le16(1) + le32(sample_rate) + le32(sample_rate * 2) + le16(2) + le16(16)
        + seq![100u8, 97, 116, 97] + le32(data_size) + samples_le(pcm)
}

/// `LittleEndian::write_u32` of the `byteorder` crate into a fresh four-byte
/// buffer: the bytes of `n`, least significant first.
#[verifier::external_body]
fn le_u32_bytes(n: u32) -> (b: Vec<u8>)
    ensures
        b@ == le32(n as nat),
{
    let mut buf = vec![0u8; 4];
    LittleEndian::write_u32(&mut buf, n);
    buf
}

/// `LittleEndian::write_u16` of the `byteorder` crate into a fresh two-byte
/// buffer: the bytes of `n`, least significant first.
#[verifier::external_body]
fn le_u16_bytes(n: u16) -> (b: Vec<u8>)
    ensures
        b@ == le16(n as nat),
{
    let mut buf = vec![0u8; 2];
    LittleEndian::write_u16(&mut buf, n);
    buf
}

/// `LittleEndian::write_i16` of the `byteorder` crate into a fresh two-byte
/// buffer: the bytes of the two's complement of `n`, least significant first.
#[verifier::external_body]
fn le_i16_bytes(n: i16) -> (b: Vec<u8>)
    ensures
        b@ == sample_le(n),
{
    let mut buf = vec![0u8; 2];
    LittleEndian::write_i16(&mut buf, n);
    buf
}

fn push_all(out: &mut Vec<u8>, bytes: Vec<u8>)
    ensures
        final(out)@ == old(out)@ + bytes@,
{
    let mut b = bytes;
    out.append(&mut b);
}

fn push_tag(out: &mut Vec<u8>, a: u8, b: u8, c: u8, d: u8)
    ensures
        final(out)@ == old(out)@ + seq![a, b, c, d],
{
    out.push(a);
    out.push(b);
    out.push(c);
    out.push(d);
    assert(out@ =~= old(out)@ + seq![a, b, c, d]);
}

/// The WAV file (mono, 16-bit PCM) holding `pcm` at `sample_rate` samples per
/// second. The size fields must fit in 32 bits and the rate must not be negative.
pub fn wav_bytes(pcm: &[i16], sample_rate: i32) -> (w: Vec<u8>)
    requires
        0 <= sample_rate,
        sample_rate as int * 2 <= u32::MAX,
        36 + 2 * pcm@.len() <= u32::MAX,
    ensures
        w@ == wav_spec(pcm@, sample_rate as nat),
{
    let num_samples: u32 = pcm.len() as u32;
    let rate: u32 = sample_rate as u32;
    let data_size: u32 = num_samples * 2;
    let mut out: Vec<u8> = Vec::new();
    push_tag(&mut out, 82, 73, 70, 70);
    push_all(&mut out, le_u32_bytes(36 + data_size));
    push_tag(&mut out, 87, 65, 86, 69);
    push_tag(&mut out, 102, 109, 116, 32);
    push_all(&mut out, le_u32_bytes(16));
    push_all(&mut out, le_u16_bytes(1));
    push_all(&mut out, le_u16_bytes(1));
    push_all(&mut out, le_u32_bytes(rate));
    push_all(&mut out, le_u32_bytes(rate * 2));
    push_all(&mut out, le_u16_bytes(2));
    push_all(&mut out, le_u16_bytes(16));
    push_tag(&mut out, 100, 97, 116, 97);
    push_all(&mut out, le_u32_bytes(data_size));
    let ghost header = out@;
    let mut i: usize = 0;
    while i < pcm.len()
        invariant
            i <= pcm@.len(),
            out@ == header + samples_le(pcm@.take(i as int)),
        decreases pcm@.len() - i,
    {
        push_all(&mut out, le_i16_bytes(pcm[i]));
        proof {
            assert(pcm@.take(i + 1).drop_last() =~= pcm@.take(i as int));
            assert(pcm@.take(i + 1).last() == pcm@[i as int]);
        }
        i = i + 1;
        assert(out@ =~= header + samples_le(pcm@.take(i as int)));
    }
    assert(pcm@.take(i as int) =~= pcm@);
    assert(out@ =~= wav_spec(pcm@, sample_rate as nat));
    out
}

/// The length of a WAV file is its 44-byte header plus two bytes per sample.
pub proof fn law_wav_length(pcm: Seq<i16>, sample_rate: nat)
    ensures
        wav_spec(pcm, sample_rate).len() == 44 + 2 * pcm.len(),
        wav_spec(pcm, sample_rate).subrange(40, 44) == le32(2 * pcm.len()),
        wav_spec(pcm, sample_rate).subrange(4, 8) == le32(36 + 2 * pcm.len()),
        wav_spec(pcm, sample_rate).subrange(24, 28) == le32(sample_rate),
{
    lemma_samples_len(pcm);
    let w = wav_spec(pcm, sample_rate);
    assert(w.subrange(40, 44) =~= le32(2 * pcm.len()));
    assert(w.subrange(4, 8) =~= le32(36 + 2 * pcm.len()));
    assert(w.subrange(24, 28) =~= le32(sample_rate));
}

/// The number four little-endian bytes stand for.
pub open spec fn read_le32(b: Seq<u8>) -> nat {
    (b[0] as nat) + 256 * (b[1] as nat) + 65536 * (b[2] as nat) + 16777216 * (b[3] as nat)
}

/// Reading back four little-endian bytes gives the number they were made from.
pub proof fn law_le32_round_trip(n: nat)
    requires
        n < 0x1_0000_0000,
    ensures
        read_le32(le32(n)) == n,
{
    let b0 = n % 256;
    let q0 = n / 256;
    let b1 = q0 % 256;
    let q1 = q0 / 256;
    let b2 = q1 % 256;
    let q2 = q1 / 256;
    assert(n == q0 * 256 + b0);
    assert(q0 == q1 * 256 + b1);
    assert(q1 == q2 * 256 + b2);
    assert(q2 < 256) by {
        assert(n / 256 / 256 / 256 == n / 16777216) by {
            vstd::arithmetic::div_mod::lemma_div_denominator(n as int, 256, 256);
            vstd::arithmetic::div_mod::lemma_div_denominator(n as int, 65536, 256);
        }
    }
    assert(n / 65536 == q1) by {
        vstd::arithmetic::div_mod::lemma_div_denominator(n as int, 256, 256);
    }
    assert(n / 16777216 == q2) by {
        vstd::arithmetic::div_mod::lemma_div_denominator(n as int, 256, 256);
        vstd::arithmetic::div_mod::lemma_div_denominator(n as int, 65536, 256);
    }
    assert(le32(n)[0] == b0);
    assert(le32(n)[1] == b1);
    assert(le32(n)[2] == b2);
    assert(le32(n)[3] == q2);
    assert(read_le32(le32(n)) == b0 + 256 * b1 + 65536 * b2 + 16777216 * q2);
    assert(b0 + 256 * b1 + 65536 * b2 + 16777216 * q2 == n) by (nonlinear_arith)
        requires
            n == q0 * 256 + b0,
            q0 == q1 * 256 + b1,
            q1 == q2 * 256 + b2,
    ;
}

/// The number two little-endian bytes stand for.
pub open spec fn read_le16(b: Seq<u8>) -> nat {
    (b[0] as nat) + 256 * (b[1] as nat)
}

/// The signed 16-bit number whose two's complement two little-endian bytes hold.
pub open spec fn read_sample(b: Seq<u8>) -> int {
    if read_le16(b) >= 32768 {
        read_le16(b) - 65536
    } else {
        read_le16(b) as int
    }
}

proof fn lemma_le16_round_trip(n: nat)
    requires
        n < 65536,
    ensures
        read_le16(le16(n)) == n,
{
}

proof fn lemma_sample_round_trip(x: i16)
    ensures
        read_sample(sample_le(x)) == x,
{
    let m: nat = (if x < 0 { x + 65536 } else { x as int }) as nat;
    lemma_le16_round_trip(m);
}

proof fn lemma_sample_at(pcm: Seq<i16>, k: int)
    requires
        0 <= k < pcm.len(),
    ensures
        samples_le(pcm).subrange(2 * k, 2 * k + 2) == sample_le(pcm[k]),
    decreases pcm.len(),
{
    lemma_samples_len(pcm.drop_last());
    if k < pcm.len() - 1 {
        lemma_sample_at(pcm.drop_last(), k);
        assert(samples_le(pcm).subrange(2 * k, 2 * k + 2) =~= samples_le(pcm.drop_last()).subrange(2 * k, 2 * k + 2));
    } else {
        assert(samples_le(pcm).subrange(2 * k, 2 * k + 2) =~= sample_le(pcm.last()));
    }
}

/// What a reader of the WAV file finds in it: the `RIFF` tag and the size of the
/// rest of the file; the `WAVE` and `fmt ` tags; a 16-byte format chunk for PCM
/// (format 1), one channel, the sample rate, a byte rate of two bytes per
/// sample, a block of two bytes and 16 bits per sample; the `data` tag and the
/// size of the samples; then each sample, as the signed 16-bit number it was.
pub proof fn law_wav_header(pcm: Seq<i16>, sample_rate: nat)
    requires
        2 * sample_rate < 0x1_0000_0000,
        36 + 2 * pcm.len() < 0x1_0000_0000,
    ensures
        ({
            let w = wav_spec(pcm, sample_rate);
            &&& w.len() == 44 + 2 * pcm.len()
            &&& w.subrange(0, 4) == seq!['R' as u8, 'I' as u8, 'F' as u8, 'F' as u8]
            &&& read_le32(w.subrange(4, 8)) == 36 + 2 * pcm.len()
            &&& w.subrange(8, 12) == seq!['W' as u8, 'A' as u8, 'V' as u8, 'E' as u8]
            &&& w.subrange(12, 16) == seq!['f' as u8, 'm' as u8, 't' as u8, ' ' as u8]
            &&& read_le32(w.subrange(16, 20)) == 16
            &&& read_le16(w.subrange(20, 22)) == 1
            &&& read_le16(w.subrange(22, 24)) == 1
            &&& read_le32(w.subrange(24, 28)) == sample_rate
            &&& read_le32(w.subrange(28, 32)) == 2 * sample_rate
            &&& read_le16(w.subrange(32, 34)) == 2
            &&& read_le16(w.subrange(34, 36)) == 16
            &&& w.subrange(36, 40) == seq!['d' as u8, 'a' as u8, 't' as u8, 'a' as u8]
            &&& read_le32(w.subrange(40, 44)) == 2 * pcm.len()
            &&& forall|k: int|
                0 <= k < pcm.len() ==> read_sample(#[trigger] w.subrange(44 + 2 * k, 46 + 2 * k)) == pcm[k]
        }),
{
    let w = wav_spec(pcm, sample_rate);
    let n = pcm.len();
    lemma_wav_layout(pcm, sample_rate);
    law_le32_round_trip(36 + 2 * n);
    law_le32_round_trip(16);
    law_le32_round_trip(sample_rate);
    law_le32_round_trip(2 * sample_rate);
    law_le32_round_trip(2 * n);
    lemma_le16_round_trip(1);
    lemma_le16_round_trip(2);
    lemma_le16_round_trip(16);
    lemma_wav_samples(pcm, sample_rate);
}

/// Where each field of the WAV file stands.
#[verifier::spinoff_prover]
#[verifier::rlimit(30)]
proof fn lemma_wav_layout(pcm: Seq<i16>, sample_rate: nat)
    ensures
        ({
            let w = wav_spec(pcm, sample_rate);
            let n = pcm.len();
            &&& w.len() == 44 + 2 * n
            &&& w.subrange(0, 4) == seq!['R' as u8, 'I' as u8, 'F' as u8, 'F' as u8]
            &&& w.subrange(4, 8) == le32(36 + 2 * n)
            &&& w.subrange(8, 12) == seq!['W' as u8, 'A' as u8, 'V' as u8, 'E' as u8]
            &&& w.subrange(12, 16) == seq!['f' as u8, 'm' as u8, 't' as u8, ' ' as u8]
            &&& w.subrange(16, 20) == le32(16)
            &&& w.subrange(20, 22) == le16(1)
            &&& w.subrange(22, 24) == le16(1)
            &&& w.subrange(24, 28) == le32(sample_rate)
            &&& w.subrange(28, 32) == le32(2 * sample_rate)
            &&& w.subrange(32, 34) == le16(2)
            &&& w.subrange(34, 36) == le16(16)
            &&& w.subrange(36, 40) == seq!['d' as u8, 'a' as u8, 't' as u8, 'a' as u8]
            &&& w.subrange(40, 44) == le32(2 * n)
            &&& w.skip(44) == samples_le(pcm)
        }),
{
    lemma_samples_len(pcm);
    let w = wav_spec(pcm, sample_rate);
    let n = pcm.len();
    assert(w.subrange(0, 4) =~= seq!['R' as u8, 'I' as u8, 'F' as u8, 'F' as u8]);
    assert(w.subrange(4, 8) =~= le32(36 + 2 * n));
    assert(w.subrange(8, 12) =~= seq!['W' as u8, 'A' as u8, 'V' as u8, 'E' as u8]);
    assert(w.subrange(12, 16) =~= seq!['f' as u8, 'm' as u8, 't' as u8, ' ' as u8]);
    assert(w.subrange(16, 20) =~= le32(16));
    assert(w.subrange(20, 22) =~= le16(1));
    assert(w.subrange(22, 24) =~= le16(1));
    assert(w.subrange(24, 28) =~= le32(sample_rate));
    assert(w.subrange(28, 32) =~= le32(2 * sample_rate));
    assert(w.subrange(32, 34) =~= le16(2));
    assert(w.subrange(34, 36) =~= le16(16));
    assert(w.subrange(36, 40) =~= seq!['d' as u8, 'a' as u8, 't' as u8, 'a' as u8]);
    assert(w.subrange(40, 44) =~= le32(2 * n));
    assert(w.skip(44) =~= samples_le(pcm));
}

/// Each sample of the WAV file reads back as the sample it was made from.
proof fn lemma_wav_samples(pcm: Seq<i16>, sample_rate: nat)
    ensures
        forall|k: int|
            0 <= k < pcm.len() ==> read_sample(#[trigger] wav_spec(pcm, sample_rate).subrange(44 + 2 * k, 46 + 2 * k))
                == pcm[k],
{
    let w = wav_spec(pcm, sample_rate);
    lemma_wav_layout(pcm, sample_rate);
    lemma_samples_len(pcm);
    assert forall|k: int| 0 <= k < pcm.len() implies read_sample(#[trigger] w.subrange(44 + 2 * k, 46 + 2 * k))
        == pcm[k] by {
        lemma_sample_at(pcm, k);
        lemma_sample_round_trip(pcm[k]);
        assert(w.subrange(44 + 2 * k, 46 + 2 * k) =~= w.skip(44).subrange(2 * k, 2 * k + 2));
    }
}

proof fn lemma_samples_len(pcm: Seq<i16>)
    ensures
        samples_le(pcm).len() == 2 * pcm.len(),
    decreases pcm.len(),
{
    if pcm.len() > 0 {
        lemma_samples_len(pcm.drop_last());
    }
}

/// The digit of value `v` (0 to 63) in the standard base64 alphabet (RFC 4648,
/// section 4): `A` to `Z`, then `a` to `z`, then `0` to `9`, then `+` and `/`.
pub open spec fn base64_digit(v: int) -> char {
    if v < 26 {
        (v + 65) as char
    } else if v < 52 {
        (v + 71) as char
    } else if v < 62 {
        (v - 4) as char
    } else if v == 62 {
        '+'
    } else {
        '/'
    }
}

/// The value of a base64 digit; 64 for a character that is none.
spec fn digit_value(c: char) -> int {
    if 'A' <= c && c <= 'Z' {
        c as int - 65
    } else if 'a' <= c && c <= 'z' {
        c as int - 71
    } else if '0' <= c && c <= '9' {
        c as int + 4
    } else if c == '+' {
        62
    } else if c == '/' {
        63
    } else {
        64
    }
}

/// The padded standard base64 text of `b` (RFC 4648): every group of three bytes
/// gives four characters of six bits each; a last group of one or two bytes is
/// completed with zero bits and padded with `=`.
pub open spec fn base64_standard(b: Seq<u8>) -> Seq<char>
    decreases b.len(),
{
    let x0 = b[0] as int;
    let x1 = b[1] as int;
    let x2 = b[2] as int;
    if b.len() == 0 {
        Seq::empty()
    } else if b.len() == 1 {
        seq![base64_digit(x0 / 4), base64_digit((x0 % 4) * 16), '=', '=']
    } else if b.len() == 2 {
        seq![base64_digit(x0 / 4), base64_digit((x0 % 4) * 16 + x1 / 16), base64_digit((x1 % 16) * 4), '=']
    } else {
        seq![
            base64_digit(x0 / 4),
            base64_digit((x0 % 4) * 16 + x1 / 16),
            base64_digit((x1 % 16) * 4 + x2 / 64),
            base64_digit(x2 % 64),
        ] + base64_standard(b.skip(3))
    }
}

/// Distinct values have distinct digits, and no digit is the padding `=`.
proof fn lemma_digit(v: int, w: int)
    requires
        0 <= v < 64,
        0 <= w < 64,
    ensures
        digit_value(base64_digit(v)) == v,
        base64_digit(v) != '=',
        base64_digit(v) == base64_digit(w) ==> v == w,
{
    assert(digit_value(base64_digit(w)) == w);
}

/// Two bytes followed by the same digits, in their base64 packing, are equal:
/// the digits hold their bits.
proof fn lemma_group(x0: u8, x1: u8, x2: u8, y0: u8, y1: u8, y2: u8)
    requires
        x0 as int / 4 == y0 as int / 4,
        (x0 as int % 4) * 16 + x1 as int / 16 == (y0 as int % 4) * 16 + y1 as int / 16,
        (x1 as int % 16) * 4 + x2 as int / 64 == (y1 as int % 16) * 4 + y2 as int / 64,
        x2 as int % 64 == y2 as int % 64,
    ensures
        x0 == y0,
        x1 == y1,
        x2 == y2,
{
}

/// Base64 text stands for one byte string only: byte strings with the same
/// padded standard base64 text are equal.
pub proof fn law_base64_injective(b1: Seq<u8>, b2: Seq<u8>)
    requires
        base64_standard(b1) == base64_standard(b2),
    ensures
        b1 == b2,
    decreases b1.len(),
{
    let t = base64_standard(b1);
    law_base64_length(b1);
    law_base64_length(b2);
    if b1.len() == 0 || b2.len() == 0 {
        assert(b1 =~= b2);
    } else {
        let x0 = b1[0];
        let y0 = b2[0];
        assert(t[0] == base64_digit(x0 as int / 4) && t[0] == base64_digit(y0 as int / 4));
        lemma_digit(x0 as int / 4, y0 as int / 4);
        if b1.len() >= 3 && b2.len() >= 3 {
            let (x1, x2, y1, y2) = (b1[1], b1[2], b2[1], b2[2]);
            let d1 = (x0 as int % 4) * 16 + x1 as int / 16;
            let e1 = (y0 as int % 4) * 16 + y1 as int / 16;
            let d2 = (x1 as int % 16) * 4 + x2 as int / 64;
            let e2 = (y1 as int % 16) * 4 + y2 as int / 64;
            assert(t[1] == base64_digit(d1) && t[1] == base64_digit(e1));
            assert(t[2] == base64_digit(d2) && t[2] == base64_digit(e2));
            assert(t[3] == base64_digit(x2 as int % 64) && t[3] == base64_digit(y2 as int % 64));
            lemma_digit(d1, e1);
            lemma_digit(d2, e2);
            lemma_digit(x2 as int % 64, y2 as int % 64);
            lemma_group(x0, x1, x2, y0, y1, y2);
            assert(base64_standard(b1.skip(3)) =~= t.skip(4));
            assert(base64_standard(b2.skip(3)) =~= t.skip(4));
            law_base64_injective(b1.skip(3), b2.skip(3));
            assert forall|k: int| 0 <= k < b1.len() implies b1[k] == b2[k] by {
                if k >= 3 {
                    assert(b1[k] == b1.skip(3)[k - 3]);
                    assert(b2[k] == b2.skip(3)[k - 3]);
                }
            }
            assert(b1 =~= b2);
        } else if b1.len() >= 3 {
            let x2 = b1[2];
            assert(t[3] == base64_digit(x2 as int % 64));
            lemma_digit(x2 as int % 64, 0);
        } else if b2.len() >= 3 {
            let y2 = b2[2];
            assert(t[3] == base64_digit(y2 as int % 64));
            lemma_digit(y2 as int % 64, 0);
        } else if b1.len() == 2 && b2.len() == 2 {
            let (x1, y1) = (b1[1], b2[1]);
            let d1 = (x0 as int % 4) * 16 + x1 as int / 16;
            let e1 = (y0 as int % 4) * 16 + y1 as int / 16;
            assert(t[1] == base64_digit(d1) && t[1] == base64_digit(e1));
            assert(t[2] == base64_digit((x1 as int % 16) * 4) && t[2] == base64_digit((y1 as int % 16) * 4));
            lemma_digit(d1, e1);
            lemma_digit((x1 as int % 16) * 4, (y1 as int % 16) * 4);
            lemma_group(x0, x1, 0, y0, y1, 0);
            assert(b1 =~= b2);
        } else if b1.len() == 1 && b2.len() == 1 {
            assert(t[1] == base64_digit((x0 as int % 4) * 16) && t[1] == base64_digit((y0 as int % 4) * 16));
            lemma_digit((x0 as int % 4) * 16, (y0 as int % 4) * 16);
            lemma_group(x0, 0, 0, y0, 0, 0);
            assert(b1 =~= b2);
        } else if b1.len() == 2 {
            assert(t[2] == base64_digit((b1[1] as int % 16) * 4));
            lemma_digit((b1[1] as int % 16) * 4, 0);
        } else {
            assert(t[2] == base64_digit((b2[1] as int % 16) * 4));
            lemma_digit((b2[1] as int % 16) * 4, 0);
        }
    }
}

/// Base64 text has four characters for every started group of three bytes.
pub proof fn law_base64_length(b: Seq<u8>)
    ensures
        base64_standard(b).len() == 4 * ((b.len() + 2) / 3),
    decreases b.len(),
{
    if b.len() >= 3 {
        law_base64_length(b.skip(3));
    }
}

/// `STANDARD.encode` of the `base64` crate: the padded standard base64 text of
/// `bytes`. It panics when the length of the text does not fit in `usize`.
#[verifier::external_body]
fn encode_base64(bytes: &[u8]) -> (s: String)
    requires
        bytes@.len() / 3 * 4 + 4 <= usize::MAX,
    ensures
        s@ == base64_standard(bytes@),
{
    base64::Engine::encode(&base64::engine::general_purpose::STANDARD, bytes)
}

/// The WAV file of `pcm` at `sample_rate`, in base64, as the service returns audio.
pub fn wav_base64(pcm: &[i16], sample_rate: i32) -> (s: String)
    requires
        0 <= sample_rate,
        sample_rate as int * 2 <= u32::MAX,
        36 + 2 * pcm@.len() <= u32::MAX,
        (44 + 2 * pcm@.len()) / 3 * 4 + 4 <= usize::MAX,
    ensures
        s@ == base64_standard(wav_spec(pcm@, sample_rate as nat)),
        s@.len() == 4 * ((44 + 2 * pcm@.len() + 2) / 3),
{
    let w = wav_bytes(pcm, sample_rate);
    proof {
        law_wav_length(pcm@, sample_rate as nat);
        law_base64_length(w@);
    }
    let ghost len = w@.len();
    assert(len == 44 + 2 * pcm@.len());
    let s = encode_base64(w.as_slice());
    s
}

/// The float-free part of the answer to a synthesis request: whether it
/// succeeded, the audio in base64, its sample rate, or the error.
#[derive(Debug, Clone)]
pub struct SynthesisReply {
    pub success: bool,
    pub audio: Option<String>,
    pub sample_rate: Option<i32>,
    pub error: Option<String>,
}

/// A reply carries audio and a sample rate exactly when it reports success, and
/// an error exactly when it does not.
pub open spec fn well_shaped(r: SynthesisReply) -> bool {
    &&& r.success <==> r.audio is Some
    &&& r.success <==> r.sample_rate is Some
    &&& !r.success <==> r.error is Some
}

/// The reply to a request refused before synthesis, with the given message.
pub fn refused_reply(message: String) -> (r: SynthesisReply)
    ensures
        !r.success,
        r.error == Some(message),
        r.audio is None,
        r.sample_rate is None,
        well_shaped(r),
{
    SynthesisReply { success: false, audio: None, sample_rate: None, error: Some(message) }
}

/// The reply once the engine has run: on success the WAV file of its samples at
/// `sample_rate`, in base64, with the rate; on failure the engine's error,
/// reported as a failed synthesis.
pub fn synthesis_reply(outcome: Result<Vec<i16>, String>, sample_rate: i32) -> (r: SynthesisReply)
    requires
        outcome matches Ok(pcm) ==> {
            &&& 0 <= sample_rate
            &&& sample_rate as int * 2 <= u32::MAX
            &&& 36 + 2 * pcm@.len() <= u32::MAX
            &&& (44 + 2 * pcm@.len()) / 3 * 4 + 4 <= usize::MAX
        },
    ensures
        well_shaped(r),
        r.success == outcome is Ok,
        outcome matches Ok(pcm) ==> {
            &&& r.audio matches Some(a) && a@ == base64_standard(wav_spec(pcm@, sample_rate as nat))
            &&& r.sample_rate == Some(sample_rate)
        },
        outcome matches Err(e) ==> r.error matches Some(m) && m@ == "Synthesis failed: "@ + e@,
{
    match outcome {
        Ok(pcm) => {
            let audio = wav_base64(pcm.as_slice(), sample_rate);
            SynthesisReply { success: true, audio: Some(audio), sample_rate: Some(sample_rate), error: None }
        },
        Err(e) => refused_reply(synthesis_failed_message(e.as_str())),
    }
}

/// How a synthesis request reached the service. A broker action reports an
/// engine failure as a failed synthesis; the direct HTTP endpoint passes the
/// engine's error on as it is.
#[derive(Debug, Clone, Copy, PartialEq, Eq, Structural)]
pub enum SynthesisRoute {
    Action,
    Direct,
}

/// The error a reply carries when the engine failed with `e`.
pub open spec fn engine_error_message(route: SynthesisRoute, e: Seq<char>) -> Seq<char> {
    match route {
        SynthesisRoute::Action => "Synthesis failed: "@ + e,
        SynthesisRoute::Direct => e,
    }
}

/// The WAV file of `pcm_len` samples at `sample_rate`, and its base64 text, have
/// sizes that the header fields and `usize` can hold.
pub open spec fn wav_fits(pcm_len: int, sample_rate: i32) -> bool {
    &&& 0 <= sample_rate
    &&& sample_rate as int * 2 <= u32::MAX
    &&& 36 + 2 * pcm_len <= u32::MAX
    &&& (44 + 2 * pcm_len) / 3 * 4 + 4 <= usize::MAX
}

/// The whole answer to a synthesis request. `attempt` is `Err` with the message
/// when the request was refused before the engine ran (it could not be read, or
/// `synthesis_precheck` failed), and otherwise what the engine gave: samples or
/// an error. The reply succeeds exactly when the engine ran and gave samples;
/// then it carries their WAV file in base64 and the sample rate, and otherwise
/// the error, reported as `route` reports engine failures.
pub fn synthesis_response(
    route: SynthesisRoute,
    attempt: Result<Result<Vec<i16>, String>, String>,
    sample_rate: i32,
) -> (r: SynthesisReply)
    requires
        attempt matches Ok(Ok(pcm)) ==> wav_fits(pcm@.len() as int, sample_rate),
    ensures
        well_shaped(r),
        r.success <==> attempt matches Ok(Ok(_)),
        attempt matches Ok(Ok(pcm)) ==> {
            &&& r.audio matches Some(a) && a@ == base64_standard(wav_spec(pcm@, sample_rate as nat))
            &&& r.sample_rate == Some(sample_rate)
        },
        attempt matches Ok(Err(e)) ==> r.error matches Some(m) && m@ == engine_error_message(route, e@),
        attempt matches Err(m) ==> r.error == Some(m),
{
    match attempt {
        Err(m) => refused_reply(m),
        Ok(outcome) => match route {
            SynthesisRoute::Action => synthesis_reply(outcome, sample_rate),
            SynthesisRoute::Direct => match outcome {
                Ok(pcm) => synthesis_reply(Ok(pcm), sample_rate),
                Err(e) => refused_reply(e),
            },
        },
    }
}

/// `STANDARD.decode` of the `base64` crate. With the standard configuration it
/// accepts only canonical padded text, and no trailing bits: it gives the bytes
/// whose padded standard base64 text is `text`, and fails when there are none.
#[verifier::external_body]
fn decode_base64(text: &str) -> (r: Option<Vec<u8>>)
    ensures
        r matches Some(b) ==> base64_standard(b@) == text@,
        r is None ==> forall|b: Seq<u8>| base64_standard(b) != text@,
{
    base64::Engine::decode(&base64::engine::general_purpose::STANDARD, text).ok()
}

/// The audio a synthesis reply delivers: the bytes its base64 audio text stands
/// for, when the reply reports success, carries audio, and that text is valid.
pub fn reply_audio(success: bool, audio: Option<&str>) -> (r: Option<Vec<u8>>)
    ensures
        r matches Some(b) ==> success && (audio matches Some(a) && base64_standard(b@) == a@),
        r is Some <==> (success && (audio matches Some(a) && exists|b: Seq<u8>| base64_standard(b) == a@)),
        forall|wav: Seq<u8>|
            success && (audio matches Some(a) && a@ == #[trigger] base64_standard(wav)) ==> (r matches Some(b)
                && b@ == wav),
{
    if !success {
        return None;
    }
    match audio {
        Some(a) => {
            let r = decode_base64(a);
            proof {
                assert forall|wav: Seq<u8>| a@ == #[trigger] base64_standard(wav) implies (r matches Some(b)
                    && b@ == wav) by {
                    let b = r->0;
                    law_base64_injective(b@, wav);
                }
            }
            r
        },
        None => None,
    }
}

/// Decoding the audio of a successful synthesis reply gives back the WAV file of
/// the engine's samples: the only bytes whose base64 text is the reply's audio
/// are that file.
pub proof fn law_reply_audio_round_trip(pcm: Seq<i16>, sample_rate: nat, decoded: Seq<u8>)
    requires
        base64_standard(decoded) == base64_standard(wav_spec(pcm, sample_rate)),
    ensures
        decoded == wav_spec(pcm, sample_rate),
{
    law_base64_injective(decoded, wav_spec(pcm, sample_rate));
}

// ---------------------------------------------------------------------------
// Output file names
// ---------------------------------------------------------------------------

/// Whether `c` is alphanumeric, as `char::is_alphanumeric` decides it.
pub uninterp spec fn char_is_alphanumeric(c: char) -> bool;

/// `char::is_alphanumeric` of std. Its result is only named here
/// (`char_is_alphanumeric`): which characters the Unicode tables count as
/// alphabetic or numeric is left unsaid.
#[verifier::external_body]
fn is_alphanumeric(c: char) -> (b: bool)
    ensures
        b == char_is_alphanumeric(c),
{
    c.is_alphanumeric()
}

/// At most the first thirty characters of `text`, each one that is not
/// alphanumeric replaced by `_`.
pub open spec fn spec_text_preview(text: Seq<char>) -> Seq<char> {
    let n = if text.len() < 30 { text.len() } else { 30 };
    Seq::new(n, |i: int| if char_is_alphanumeric(text[i]) { text[i] } else { '_' })
}

/// The beginning of `text`, as it appears in a file name.
pub fn text_preview(text: &str) -> (p: String)
    ensures
        p@ == spec_text_preview(text@),
{
    let v = chars_of(text);
    let n: usize = if v.len() < 30 { v.len() } else { 30 };
    let mut p = String::new();
    let mut i: usize = 0;
    while i < n
        invariant
            v@ == text@,
            n <= v@.len(),
            n == (if text@.len() < 30 { text@.len() } else { 30 }),
            i <= n,
            p@ == spec_text_preview(text@).take(i as int),
        decreases n - i,
    {
        let c = v[i];
        if is_alphanumeric(c) {
            push_char(&mut p, c);
        } else {
            push_char(&mut p, '_');
        }
        i = i + 1;
        assert(p@ =~= spec_text_preview(text@).take(i as int));
    }
    assert(p@ =~= spec_text_preview(text@));
    p
}

/// `dir/lang_preview_timestamp.wav`
pub open spec fn spec_wav_file_name(dir: Seq<char>, lang: Seq<char>, text: Seq<char>, timestamp: u64) -> Seq<char> {
    dir + seq!['/'] + lang + seq!['_'] + spec_text_preview(text) + seq!['_'] + decimal(timestamp as nat)
        + seq!['.', 'w', 'a', 'v']
}

/// The file a synthesized text is written to: in `dir`, named after the
/// language, the beginning of the text and the time in seconds.
pub fn wav_file_name(dir: &str, lang: &str, text: &str, timestamp: u64) -> (f: String)
    ensures
        f@ == spec_wav_file_name(dir@, lang@, text@, timestamp),
{
    let mut f = String::new();
    push_str(&mut f, dir);
    push_char(&mut f, '/');
    push_str(&mut f, lang);
    push_char(&mut f, '_');
    let p = text_preview(text);
    push_str(&mut f, p.as_str());
    push_char(&mut f, '_');
    push_decimal(&mut f, timestamp);
    push_char(&mut f, '.');
    push_char(&mut f, 'w');
    push_char(&mut f, 'a');
    push_char(&mut f, 'v');
    assert(f@ =~= spec_wav_file_name(dir@, lang@, text@, timestamp));
    f
}

/// A preview never exceeds thirty characters and holds no character that is
/// neither alphanumeric nor `_`.
pub proof fn law_preview_shape(text: Seq<char>)
    ensures
        spec_text_preview(text).len() <= 30,
        spec_text_preview(text).len() <= text.len(),
        forall|i: int| 0 <= i < spec_text_preview(text).len() ==> {
            let c = #[trigger] spec_text_preview(text)[i];
            c == '_' || char_is_alphanumeric(c)
        },
{
}

// ---------------------------------------------------------------------------
// Waiting for a response file
// ---------------------------------------------------------------------------

/// How many times a client looks for the response file of a request.
pub const RESPONSE_POLL_ATTEMPTS: u32 = 30;

/// How long a client waits between two looks, in milliseconds.
pub const RESPONSE_POLL_INTERVAL_MS: u64 = 500;

/// What a client waiting for a response file does next.
#[derive(Debug, Clone, Copy, PartialEq, Eq, Structural)]
pub enum PollAction {
    /// The file was there and could be read: take its contents.
    Read,
    /// Wait one interval and look again.
    Wait,
    /// Stop waiting: no response came in time.
    GiveUp,
}

/// After `attempt` looks that found nothing, a client that has looks left takes
/// the file when `found`, and waits otherwise; once the looks are used up it
/// gives up.
pub open spec fn spec_poll_step(attempt: u32, found: bool) -> PollAction {
    if attempt >= RESPONSE_POLL_ATTEMPTS {
        PollAction::GiveUp
    } else if found {
        PollAction::Read
    } else {
        PollAction::Wait
    }
}

/// The next step of a client waiting for a response file, at look number
/// `attempt` (from 0), given whether the file was found and read.
pub fn poll_step(attempt: u32, found: bool) -> (a: PollAction)
    ensures
        a == spec_poll_step(attempt, found),
{
    if attempt >= RESPONSE_POLL_ATTEMPTS {
        PollAction::GiveUp
    } else if found {
        PollAction::Read
    } else {
        PollAction::Wait
    }
}

/// A client looks thirty times: on any of those looks a found file is read and
/// a missing one waited for, and after the thirtieth it gives up, found or not.
pub proof fn law_poll_steps(attempt: u32, found: bool)
    ensures
        attempt < 30 && found ==> spec_poll_step(attempt, found) == PollAction::Read,
        attempt < 30 && !found ==> spec_poll_step(attempt, found) == PollAction::Wait,
        attempt >= 30 ==> spec_poll_step(attempt, found) == PollAction::GiveUp,
{
}

} // verus!
