//! A chat turn on the host: the ChatML frame around the user's prompt, the
//! greedy-decode stopping rule, and the incremental detokenization that
//! streams each new piece of the reply.
//!
//! Tokenization is the `tokenizers` crate's. Looking up ids and encoding are
//! called from here. Loading a `tokenizer.json` and decoding ids are called by
//! the application, which hands the decoded text to [`Reply::take_decoded`]:
//! both can panic inside the crate on inputs (a merge longer than any
//! vocabulary entry, a strip decoder on a short token) that no contract here
//! can describe. The logits, the argmax over them and the forward passes are
//! the application's too.

use vstd::prelude::*;
use vstd::string::*;
use vstd::utf8::encode_utf8;

use tokenizers::Tokenizer;

verus! {

#[verifier::external_type_specification]
#[verifier::external_body]
pub struct ExTokenizer(tokenizers::Tokenizer);

/// The ChatML frame of a turn: an optional system message, the user message,
/// and the opened assistant message the model continues.
pub open spec fn spec_chatml(prompt: Seq<char>, system: Option<Seq<char>>) -> Seq<char> {
    let head = match system {
        Some(s) => "<|im_start|>system\n"@ + s + "<|im_end|>\n"@,
        None => Seq::<char>::empty(),
    };
    head + "<|im_start|>user\n"@ + prompt + "<|im_end|>\n<|im_start|>assistant\n"@
}

/// Frame `prompt` (and `system`, if any) as a Qwen ChatML turn.
pub fn chatml_prompt(prompt: &str, system: Option<&str>) -> (r: String)
    ensures
        r@ == spec_chatml(prompt@, match system {
            Some(s) => Some(s@),
            None => None,
        }),
{
    let mut text = String::new();
    if let Some(sys) = system {
        text.append("<|im_start|>system\n");
        text.append(sys);
        text.append("<|im_end|>\n");
    }
    text.append("<|im_start|>user\n");
    text.append(prompt);
    text.append("<|im_end|>\n<|im_start|>assistant\n");
    proof {
        let head = match system {
            Some(s) => "<|im_start|>system\n"@ + s@ + "<|im_end|>\n"@,
            None => Seq::<char>::empty(),
        };
        assert(text@ =~= head + "<|im_start|>user\n"@ + prompt@
            + "<|im_end|>\n<|im_start|>assistant\n"@);
    }
    text
}

/// The ids that were found, in order.
pub open spec fn spec_present(found: Seq<Option<u32>>) -> Seq<u32>
    decreases found.len(),
{
    if found.len() == 0 {
        Seq::empty()
    } else {
        let rest = spec_present(found.drop_last());
        match found.last() {
            Some(id) => rest.push(id),
            None => rest,
        }
    }
}

proof fn lemma_present_len(found: Seq<Option<u32>>)
    ensures
        spec_present(found).len() <= found.len(),
    decreases found.len(),
{
    if found.len() > 0 {
        lemma_present_len(found.drop_last());
    }
}

/// The ids found by two lookups, in order.
pub open spec fn spec_present_of_two(a: Option<u32>, b: Option<u32>) -> Seq<u32> {
    spec_present(seq![a, b])
}

/// Keep the ids that were found, in order (`filter_map` over lookups).
pub fn present_ids(found: &Vec<Option<u32>>) -> (r: Vec<u32>)
    ensures
        r@ == spec_present(found@),
{
    let mut r: Vec<u32> = Vec::new();
    let mut i: usize = 0;
    while i < found.len()
        invariant
            i <= found@.len(),
            r@ == spec_present(found@.take(i as int)),
        decreases found@.len() - i,
    {
        assert(found@.take(i as int + 1).drop_last() =~= found@.take(i as int));
        if let Some(id) = found[i] {
            r.push(id);
        }
        i += 1;
    }
    assert(found@.take(found@.len() as int) =~= found@);
    r
}

/// The id `Tokenizer::token_to_id` gives a token.
pub uninterp spec fn vocab_id(tok: Tokenizer, token: Seq<char>) -> Option<u32>;

/// `Tokenizer::token_to_id`: a lookup of the token in the tokenizer's added
/// and model vocabularies, named [`vocab_id`]. Which id a token has is the
/// tokenizer's contents and is not stated.
#[verifier::external_body]
fn token_to_id(tok: &Tokenizer, token: &str) -> (r: Option<u32>)
    ensures
        r == vocab_id(*tok, token@),
{
    tok.token_to_id(token)
}

/// `Tokenizer::encode(text, true)`, the ids of the encoding, its error as
/// text. An encoding may depend on chance (a BPE model can drop merges at
/// random), so its result gets no name, and nothing is stated of it.
#[verifier::external_body]
fn encode_ids(tok: &Tokenizer, text: String) -> (r: Result<Vec<u32>, String>) {
    tok.encode(text, true).map(|enc| enc.get_ids().to_vec()).map_err(|e| e.to_string())
}

/// The end-of-turn ids a tokenizer gives: `<|im_end|>` then `<|endoftext|>`,
/// those of them that it has.
pub open spec fn spec_eos_ids(tok: Tokenizer) -> Seq<u32> {
    spec_present_of_two(vocab_id(tok, "<|im_end|>"@), vocab_id(tok, "<|endoftext|>"@))
}

/// Every end-of-turn token the tokenizer has ends the reply, and nothing
/// else does: the id of `<|im_end|>` and the id of `<|endoftext|>`, whichever
/// the vocabulary holds, are end-of-turn ids, in that order, and every
/// end-of-turn id is one of them.
pub proof fn lemma_eos_ids_complete(tok: Tokenizer)
    ensures
        vocab_id(tok, "<|im_end|>"@) matches Some(a) ==> spec_eos_ids(tok).contains(a),
        vocab_id(tok, "<|endoftext|>"@) matches Some(b) ==> spec_eos_ids(tok).contains(b),
        forall|x: u32|
            spec_eos_ids(tok).contains(x) ==> vocab_id(tok, "<|im_end|>"@) == Some(x) || vocab_id(
                tok,
                "<|endoftext|>"@,
            ) == Some(x),
        (vocab_id(tok, "<|im_end|>"@), vocab_id(tok, "<|endoftext|>"@)) matches (Some(a), Some(b))
            ==> spec_eos_ids(tok) == seq![a, b],
{
    let a = vocab_id(tok, "<|im_end|>"@);
    let b = vocab_id(tok, "<|endoftext|>"@);
    let s = seq![a, b];
    assert(s.drop_last() =~= seq![a]);
    assert(seq![a].drop_last() =~= Seq::<Option<u32>>::empty());
    let e1 = spec_present(seq![a]);
    assert(spec_present(Seq::<Option<u32>>::empty()) == Seq::<u32>::empty());
    assert(e1 == match a {
        Some(x) => Seq::<u32>::empty().push(x),
        None => Seq::<u32>::empty(),
    });
    let e = spec_eos_ids(tok);
    assert(e == match b {
        Some(y) => e1.push(y),
        None => e1,
    });
    if let Some(x) = a {
        assert(e[0] == x);
    }
    if let Some(y) = b {
        assert(e[e.len() - 1] == y);
    }
    if let (Some(x), Some(y)) = (a, b) {
        assert(e =~= seq![x, y]);
    }
}

/// The end-of-turn ids of a tokenizer: `<|im_end|>` and `<|endoftext|>`, those
/// of them that its vocabulary has, in that order.
pub fn eos_ids(tok: &Tokenizer) -> (r: Vec<u32>)
    ensures
        r@ == spec_eos_ids(*tok),
        r@.len() <= 2,
{
    let found = vec![token_to_id(tok, "<|im_end|>"), token_to_id(tok, "<|endoftext|>")];
    let r = present_ids(&found);
    proof {
        lemma_present_len(found@);
        assert(found@ =~= seq![found@[0], found@[1]]);
        assert(r@ == spec_present_of_two(found@[0], found@[1]));
    }
    r
}

/// The ids of the ChatML-framed turn, as the tokenizer encodes it (special
/// tokens added).
pub fn prompt_ids(tok: &Tokenizer, prompt: &str, system: Option<&str>) -> (r: Result<
    Vec<u32>,
    String,
>) {
    encode_ids(tok, chatml_prompt(prompt, system))
}

/// The UTF-8 bytes of `s`.
pub open spec fn utf8(s: Seq<char>) -> Seq<u8> {
    encode_utf8(s)
}

/// What the stream hands out when the detokenized reply reads `full` and
/// `shown` has been shown so far: the bytes past the shown length, if the text
/// got longer.
pub open spec fn spec_piece(shown: Seq<u8>, full: Seq<u8>) -> Option<Seq<u8>> {
    if full.len() > shown.len() {
        Some(full.subrange(shown.len() as int, full.len() as int))
    } else {
        None
    }
}

/// The text shown after detokenizing to `full`.
pub open spec fn spec_shown_after(shown: Seq<u8>, full: Seq<u8>) -> Seq<u8> {
    if full.len() > shown.len() {
        full
    } else {
        shown
    }
}

/// Everything streamed when the detokenized reply reads `fulls[0]`,
/// `fulls[1]`, … in turn, starting from `shown`: the pieces joined, and the
/// text shown at the end.
pub open spec fn spec_stream(shown: Seq<u8>, fulls: Seq<Seq<u8>>) -> (Seq<u8>, Seq<u8>)
    decreases fulls.len(),
{
    if fulls.len() == 0 {
        (Seq::empty(), shown)
    } else {
        let (joined, last) = spec_stream(shown, fulls.drop_last());
        let piece = match spec_piece(last, fulls.last()) {
            Some(p) => p,
            None => Seq::empty(),
        };
        (joined + piece, spec_shown_after(last, fulls.last()))
    }
}

/// Each text extends the one before it, the first extending `shown`.
pub open spec fn extends_each(shown: Seq<u8>, fulls: Seq<Seq<u8>>) -> bool {
    &&& forall|i: int|
        0 <= i < fulls.len() ==> shown.len() <= (#[trigger] fulls[i]).len() && fulls[i].subrange(
            0,
            shown.len() as int,
        ) == shown
    &&& forall|i: int, j: int|
        0 <= i < j < fulls.len() ==> (#[trigger] fulls[i]).len() <= (#[trigger] fulls[j]).len()
            && fulls[j].subrange(0, fulls[i].len() as int) == fulls[i]
}

/// Streaming is lossless: when each detokenized text extends the one before
/// it, what was shown at the start followed by every piece handed out is
/// exactly the text shown at the end, and that is the last text read.
pub proof fn lemma_stream_joins(shown: Seq<u8>, fulls: Seq<Seq<u8>>)
    requires
        extends_each(shown, fulls),
    ensures
        shown + spec_stream(shown, fulls).0 == spec_stream(shown, fulls).1,
        fulls.len() > 0 ==> spec_stream(shown, fulls).1 == fulls.last(),
    decreases fulls.len(),
{
    if fulls.len() > 0 {
        let init = fulls.drop_last();
        assert(extends_each(shown, init)) by {
            assert forall|i: int, j: int| 0 <= i < j < init.len() implies (#[trigger] init[i]).len()
                <= (#[trigger] init[j]).len() && init[j].subrange(0, init[i].len() as int)
                == init[i] by {
                assert(init[i] == fulls[i] && init[j] == fulls[j]);
            }
            assert forall|i: int| 0 <= i < init.len() implies shown.len() <= (
            #[trigger] init[i]).len() && init[i].subrange(0, shown.len() as int) == shown by {
                assert(init[i] == fulls[i]);
            }
        }
        lemma_stream_joins(shown, init);
        let (joined, last) = spec_stream(shown, init);
        let f = fulls.last();
        assert(fulls[fulls.len() - 1] == f);
        // `last` is `shown` or one of the earlier texts, so `f` extends it.
        assert(last.len() <= f.len() && f.subrange(0, last.len() as int) == last) by {
            lemma_shown_is_earlier(shown, init);
            if init.len() == 0 {
            } else if last == shown {
            } else {
                let k = choose|k: int| 0 <= k < init.len() && init[k] == last;
                assert(fulls[k] == last);
            }
        }
        if f.len() > last.len() {
            assert(shown + (joined + f.subrange(last.len() as int, f.len() as int)) =~= (shown
                + joined) + f.subrange(last.len() as int, f.len() as int));
            assert(last + f.subrange(last.len() as int, f.len() as int) =~= f);
        } else {
            assert(joined + Seq::<u8>::empty() =~= joined);
            assert(f.subrange(0, f.len() as int) =~= f);
        }
    }
}

/// The text shown after any run is the starting text or one of the texts read.
proof fn lemma_shown_is_earlier(shown: Seq<u8>, fulls: Seq<Seq<u8>>)
    ensures
        spec_stream(shown, fulls).1 == shown || exists|k: int|
            0 <= k < fulls.len() && fulls[k] == spec_stream(shown, fulls).1,
    decreases fulls.len(),
{
    if fulls.len() > 0 {
        let init = fulls.drop_last();
        lemma_shown_is_earlier(shown, init);
        let last = spec_stream(shown, init).1;
        if fulls.last().len() > last.len() {
            assert(fulls[fulls.len() - 1] == fulls.last());
        } else if last != shown {
            let k = choose|k: int| 0 <= k < init.len() && init[k] == last;
            assert(fulls[k] == init[k]);
        }
    }
}

/// `v` holds `x`.
pub fn contains(v: &Vec<u32>, x: u32) -> (b: bool)
    ensures
        b == v@.contains(x),
{
    let mut i: usize = 0;
    while i < v.len()
        invariant
            i <= v@.len(),
            forall|j: int| 0 <= j < i ==> v@[j] != x,
        decreases v@.len() - i,
    {
        if v[i] == x {
            return true;
        }
        i += 1;
    }
    false
}

/// Streaming a decoded text `full` when `shown` was shown: the result `r` and
/// the text shown after. A longer text whose cut point (the shown byte length)
/// falls inside a character is an error and changes nothing; otherwise the
/// piece past the shown length is handed out, as [`spec_piece`] and
/// [`spec_shown_after`] say.
pub open spec fn spec_streamed(
    shown: Seq<char>,
    full: Seq<char>,
    shown_after: Seq<char>,
    r: Result<Option<String>, String>,
) -> bool {
    if utf8(full).len() > utf8(shown).len() && !vstd::utf8::is_char_boundary(
        utf8(full),
        utf8(shown).len() as int,
    ) {
        r is Err && shown_after == shown
    } else {
        &&& utf8(shown_after) == spec_shown_after(utf8(shown), utf8(full))
        &&& match spec_piece(utf8(shown), utf8(full)) {
            Some(p) => r matches Ok(Some(s)) && utf8(s@) == p,
            None => r matches Ok(None),
        }
    }
}

/// One greedy reply: the ids produced so far and the text streamed so far.
pub struct Reply {
    eos: Vec<u32>,
    max_tokens: usize,
    produced: Vec<u32>,
    shown: String,
}

impl Reply {
    /// The end-of-turn ids.
    pub closed spec fn spec_eos(&self) -> Seq<u32> {
        self.eos@
    }

    /// The most ids a reply takes.
    pub closed spec fn spec_max_tokens(&self) -> nat {
        self.max_tokens as nat
    }

    /// The ids produced so far.
    pub closed spec fn spec_produced(&self) -> Seq<u32> {
        self.produced@
    }

    /// The text streamed so far.
    pub closed spec fn spec_shown(&self) -> Seq<char> {
        self.shown@
    }

    /// A reply never takes more than `max_tokens` ids and never takes an
    /// end-of-turn id.
    pub open spec fn wf(&self) -> bool {
        &&& self.spec_produced().len() <= self.spec_max_tokens()
        &&& forall|i: int|
            0 <= i < self.spec_produced().len() ==> !self.spec_eos().contains(
                #[trigger] self.spec_produced()[i],
            )
    }

    /// An empty reply of at most `max_tokens` ids that ends at any of `eos`.
    pub fn new(eos: Vec<u32>, max_tokens: usize) -> (r: Reply)
        ensures
            r.wf(),
            r.spec_eos() == eos@,
            r.spec_max_tokens() == max_tokens,
            r.spec_produced() == Seq::<u32>::empty(),
            r.spec_shown() == Seq::<char>::empty(),
    {
        Reply { eos, max_tokens, produced: Vec::new(), shown: String::new() }
    }

    /// Whether the reply may still take a token (one decode step per token,
    /// `max_tokens` steps at most).
    pub fn wants_more(&self) -> (b: bool)
        ensures
            b == (self.spec_produced().len() < self.spec_max_tokens()),
    {
        self.produced.len() < self.max_tokens
    }

    /// Take the model's next id, unless it ends the turn; `false` means the
    /// reply is complete.
    pub fn accept(&mut self, next: u32) -> (taken: bool)
        requires
            old(self).wf(),
            old(self).spec_produced().len() < old(self).spec_max_tokens(),
        ensures
            final(self).wf(),
            taken == !old(self).spec_eos().contains(next),
            taken ==> final(self).spec_produced() == old(self).spec_produced().push(next),
            !taken ==> final(self).spec_produced() == old(self).spec_produced(),
            final(self).spec_eos() == old(self).spec_eos(),
            final(self).spec_max_tokens() == old(self).spec_max_tokens(),
            final(self).spec_shown() == old(self).spec_shown(),
    {
        if contains(&self.eos, next) {
            return false;
        }
        self.produced.push(next);
        true
    }

    /// The text detokenized so far reads `full`: hand out the part past what
    /// was shown, if it got longer, and show `full` from now on.
    pub fn show(&mut self, full: String) -> (piece: Option<String>)
        requires
            utf8(full@).len() > utf8(old(self).spec_shown()).len() ==> vstd::utf8::is_char_boundary(
                utf8(full@),
                utf8(old(self).spec_shown()).len() as int,
            ),
        ensures
            match spec_piece(utf8(old(self).spec_shown()), utf8(full@)) {
                Some(p) => piece matches Some(s) && utf8(s@) == p,
                None => piece is None,
            },
            utf8(final(self).spec_shown()) == spec_shown_after(
                utf8(old(self).spec_shown()),
                utf8(full@),
            ),
            final(self).spec_produced() == old(self).spec_produced(),
            final(self).spec_eos() == old(self).spec_eos(),
            final(self).spec_max_tokens() == old(self).spec_max_tokens(),
    {
        let n = self.shown.as_str().as_bytes().len();
        let f = full.as_str();
        if f.as_bytes().len() > n {
            let (_, tail) = f.split_at(n);
            let piece = String::from_str(tail);
            self.shown = full;
            Some(piece)
        } else {
            None
        }
    }

    /// Stream what detokenizing the produced ids gave (`Tokenizer::decode`,
    /// its error as text): a tokenizer error is passed on; a
    /// text that is longer than the shown one but does not extend its length at
    /// a character boundary is reported as an error; otherwise [`Self::show`].
    pub fn take_decoded(&mut self, decoded: Result<String, String>) -> (r: Result<
        Option<String>,
        String,
    >)
        requires
            old(self).wf(),
        ensures
            final(self).wf(),
            final(self).spec_produced() == old(self).spec_produced(),
            final(self).spec_eos() == old(self).spec_eos(),
            final(self).spec_max_tokens() == old(self).spec_max_tokens(),
            match decoded {
                Err(e) => r == Err::<Option<String>, String>(e) && final(self).spec_shown()
                    == old(self).spec_shown(),
                Ok(full) => spec_streamed(old(self).spec_shown(), full@, final(self).spec_shown(), r),
            },
    {
        let full = match decoded {
            Ok(full) => full,
            Err(e) => {
                return Err(e);
            },
        };
        let n = self.shown.as_str().as_bytes().len();
        if full.as_str().as_bytes().len() > n && !full.as_str().is_char_boundary(n) {
            return Err(String::from_str("detokenized text splits a character of the shown reply"));
        }
        Ok(self.show(full))
    }

    /// The ids produced so far.
    pub fn produced(&self) -> (p: &Vec<u32>)
        ensures
            p@ == self.spec_produced(),
    {
        &self.produced
    }

    /// The text streamed so far.
    pub fn text(&self) -> (s: &String)
        ensures
            s@ == self.spec_shown(),
    {
        &self.shown
    }
}

} // verus!
