//! Runtime parameters of a loaded model server.  Context length and GPU
//! layers take effect only at load time: while a model is loaded a change
//! is parked as pending, to be applied on the next restart.  Whether a
//! model is loaded is observed outside this crate and handed in.

use vstd::prelude::*;
use crate::text::dec_int;

verus! {

/// Parameters that require a model restart to change.
#[derive(Debug, Clone, Copy, PartialEq, Eq, Structural)]
pub struct ModelLoadParams {
    pub context_length: i32,
    pub n_gpu_layers: i32,
}

impl Default for ModelLoadParams {
    /// A 4096-token context, with every layer on the GPU.
    fn default() -> (r: Self)
        ensures
            r.context_length == 4096,
            r.n_gpu_layers == -1,
    {
        ModelLoadParams { context_length: 4096, n_gpu_layers: -1 }
    }
}

/// The outcome of attempting a parameter change.
#[derive(Debug, Clone)]
pub struct ParameterChangeResult {
    pub success: bool,
    pub requires_restart: bool,
    pub message: String,
    pub saved_for_restart: bool,
}

/// Manages load-time parameters for one server.
#[derive(Debug)]
pub struct ParameterController {
    pub llama_server_url: String,
    pub current_model_load_params: ModelLoadParams,
    pub pending_context_length: Option<i32>,
    pub pending_n_gpu_layers: Option<i32>,
}

impl ParameterController {
    pub fn new(llama_server_url: String) -> (r: ParameterController)
        ensures
            r.llama_server_url == llama_server_url,
            r.current_model_load_params.context_length == 4096,
            r.current_model_load_params.n_gpu_layers == -1,
            r.pending_context_length is None,
            r.pending_n_gpu_layers is None,
    {
        ParameterController {
            llama_server_url,
            current_model_load_params: ModelLoadParams::default(),
            pending_context_length: None,
            pending_n_gpu_layers: None,
        }
    }

    /// Sets the context length: between 512 and 131072, applied at once
    /// when no model is loaded (`Ok(true)`), otherwise parked as pending
    /// until the next load (`Ok(false)`).
    pub fn set_context_length(&mut self, length: i32, model_loaded: bool) -> (r: Result<
        bool,
        String,
    >)
        ensures
            final(self).llama_server_url == old(self).llama_server_url,
            final(self).pending_n_gpu_layers == old(self).pending_n_gpu_layers,
            final(self).current_model_load_params.n_gpu_layers == old(self).current_model_load_params.n_gpu_layers,
            match r {
                Ok(applied) => {
                    &&& 512 <= length <= 131072
                    &&& applied == !model_loaded
                    &&& if model_loaded {
                        final(self).pending_context_length == Some(length) && final(self).current_model_load_params == old(self).current_model_load_params
                    } else {
                        final(self).pending_context_length is None && final(self).current_model_load_params.context_length == length
                    }
                },
                Err(m) => {
                    &&& !(512 <= length <= 131072)
                    &&& *final(self) == *old(self)
                    &&& if length < 512 {
                        m@ == "Context length must be at least 512, got "@ + dec_int(length as int)
                    } else {
                        m@ == "Context length cannot exceed 131072, got "@ + dec_int(length as int)
                    }
                },
            },
    {
        if length < 512 {
            let mut m = "Context length must be at least 512, got ".to_owned();
            let d = crate::text::i64_to_dec_string(length as i64);
            m.append(d.as_str());
            return Err(m);
        }
        if length > 131072 {
            let mut m = "Context length cannot exceed 131072, got ".to_owned();
            let d = crate::text::i64_to_dec_string(length as i64);
            m.append(d.as_str());
            return Err(m);
        }
        if model_loaded {
            self.pending_context_length = Some(length);
            Ok(false)
        } else {
            self.current_model_load_params.context_length = length;
            self.pending_context_length = None;
            Ok(true)
        }
    }

    /// Sets the GPU layer count: `-1` or more, applied at once when no
    /// model is loaded, otherwise parked as pending.
    pub fn set_n_gpu_layers(&mut self, n_layers: i32, model_loaded: bool) -> (r: Result<
        bool,
        String,
    >)
        ensures
            final(self).llama_server_url == old(self).llama_server_url,
            final(self).pending_context_length == old(self).pending_context_length,
            final(self).current_model_load_params.context_length == old(self).current_model_load_params.context_length,
            match r {
                Ok(applied) => {
                    &&& n_layers >= -1
                    &&& applied == !model_loaded
                    &&& if model_loaded {
                        final(self).pending_n_gpu_layers == Some(n_layers) && final(self).current_model_load_params == old(self).current_model_load_params
                    } else {
                        final(self).pending_n_gpu_layers is None && final(self).current_model_load_params.n_gpu_layers == n_layers
                    }
                },
                Err(m) => {
                    &&& n_layers < -1
                    &&& *final(self) == *old(self)
                    &&& m@ == "n_gpu_layers must be -1 or greater, got "@ + dec_int(n_layers as int)
                },
            },
    {
        if n_layers < -1 {
            let mut m = "n_gpu_layers must be -1 or greater, got ".to_owned();
            let d = crate::text::i64_to_dec_string(n_layers as i64);
            m.append(d.as_str());
            return Err(m);
        }
        if model_loaded {
            self.pending_n_gpu_layers = Some(n_layers);
            Ok(false)
        } else {
            self.current_model_load_params.n_gpu_layers = n_layers;
            self.pending_n_gpu_layers = None;
            Ok(true)
        }
    }

    pub fn get_model_load_params(&self) -> (r: &ModelLoadParams)
        ensures
            *r == self.current_model_load_params,
    {
        &self.current_model_load_params
    }

    /// The changes waiting for the next model load, as name/value pairs.
    pub fn get_pending_changes(&self) -> (r: Vec<(String, i32)>)
        ensures
            r@.len() == (if self.pending_context_length is Some {
                1int
            } else {
                0int
            }) + (if self.pending_n_gpu_layers is Some {
                1int
            } else {
                0int
            }),
            self.pending_context_length matches Some(l) ==> r@[0].0@ == "context_length"@
                && r@[0].1 == l,
            self.pending_n_gpu_layers matches Some(g) ==> {
                let i = r@.len() - 1;
                r@[i].0@ == "n_gpu_layers"@ && r@[i].1 == g
            },
    {
        let mut r: Vec<(String, i32)> = Vec::new();
        match self.pending_context_length {
            Some(l) => {
                r.push(("context_length".to_owned(), l));
            },
            None => {},
        }
        match self.pending_n_gpu_layers {
            Some(g) => {
                r.push(("n_gpu_layers".to_owned(), g));
            },
            None => {},
        }
        r
    }

    /// Forgets the pending changes (after a model restart applied them).
    pub fn clear_pending_changes(&mut self)
        ensures
            final(self).pending_context_length is None,
            final(self).pending_n_gpu_layers is None,
            final(self).current_model_load_params == old(self).current_model_load_params,
            final(self).llama_server_url == old(self).llama_server_url,
    {
        self.pending_context_length = None;
        self.pending_n_gpu_layers = None;
    }

    /// Folds the pending changes into the current parameters and forgets
    /// them (after a model restart).
    pub fn apply_pending_changes(&mut self)
        ensures
            final(self).llama_server_url == old(self).llama_server_url,
            final(self).pending_context_length is None,
            final(self).pending_n_gpu_layers is None,
            final(self).current_model_load_params.context_length == (match old(self).pending_context_length {
                Some(l) => l,
                None => old(self).current_model_load_params.context_length,
            }),
            final(self).current_model_load_params.n_gpu_layers == (match old(self).pending_n_gpu_layers {
                Some(g) => g,
                None => old(self).current_model_load_params.n_gpu_layers,
            }),
    {
        match self.pending_context_length {
            Some(l) => {
                self.current_model_load_params.context_length = l;
            },
            None => {},
        }
        match self.pending_n_gpu_layers {
            Some(g) => {
                self.current_model_load_params.n_gpu_layers = g;
            },
            None => {},
        }
        self.clear_pending_changes();
    }

    /// The command-line arguments the current load parameters ask for.
    pub fn get_model_load_args(&self) -> (r: Vec<String>)
        ensures
            r.deep_view() == seq!["-c"@, dec_int(self.current_model_load_params.context_length as int)]
                + (if self.current_model_load_params.n_gpu_layers >= 0 {
                seq!["-ngl"@, dec_int(self.current_model_load_params.n_gpu_layers as int)]
            } else {
                Seq::empty()
            }),
    {
        let mut r: Vec<String> = Vec::new();
        r.push("-c".to_owned());
        r.push(crate::text::i64_to_dec_string(self.current_model_load_params.context_length as i64));
        if self.current_model_load_params.n_gpu_layers >= 0 {
            r.push("-ngl".to_owned());
            r.push(crate::text::i64_to_dec_string(self.current_model_load_params.n_gpu_layers as i64));
        }
        proof {
            if self.current_model_load_params.n_gpu_layers >= 0 {
                assert(r.deep_view() =~= seq![
                    "-c"@,
                    dec_int(self.current_model_load_params.context_length as int),
                    "-ngl"@,
                    dec_int(self.current_model_load_params.n_gpu_layers as int),
                ]);
                assert(seq!["-c"@, dec_int(self.current_model_load_params.context_length as int)]
                    + seq![
                    "-ngl"@,
                    dec_int(self.current_model_load_params.n_gpu_layers as int),
                ] =~= r.deep_view());
            } else {
                assert(r.deep_view() =~= seq![
                    "-c"@,
                    dec_int(self.current_model_load_params.context_length as int),
                ]);
                assert(seq!["-c"@, dec_int(self.current_model_load_params.context_length as int)]
                    + Seq::<Seq<char>>::empty() =~= r.deep_view());
            }
        }
        r
    }

    pub fn set_server_url(&mut self, url: String)
        ensures
            final(self).llama_server_url == url,
            final(self).current_model_load_params == old(self).current_model_load_params,
            final(self).pending_context_length == old(self).pending_context_length,
            final(self).pending_n_gpu_layers == old(self).pending_n_gpu_layers,
    {
        self.llama_server_url = url;
    }

    pub fn get_server_url(&self) -> (r: &str)
        ensures
            r@ == self.llama_server_url@,
    {
        self.llama_server_url.as_str()
    }
}


/// Message context prepared for one request, respecting the context budget.
pub struct MessageContext {
    pub messages: Vec<crate::openai::ChatMessage>,
    pub estimated_tokens: usize,
    pub truncated: bool,
}

/// A rough token estimate: four characters to a token, and at least one.
pub open spec fn spec_est_tokens(m: crate::openai::ChatMessage) -> int {
    m.content@.len() as int / 4 + 1
}

/// Walking the conversation newest-first, the messages kept are the longest
/// suffix that fits the budget: a triple of the kept suffix (oldest first),
/// the tokens used including `used` so far, and whether anything was cut.
pub open spec fn spec_fit_messages(
    msgs: Seq<crate::openai::ChatMessage>,
    avail: int,
    used: int,
) -> (Seq<crate::openai::ChatMessage>, int, bool)
    decreases msgs.len(),
{
    if msgs.len() == 0 {
        (Seq::empty(), used, false)
    } else {
        let newest = msgs.last();
        if used + spec_est_tokens(newest) > avail {
            (Seq::empty(), used, true)
        } else {
            let rest = spec_fit_messages(msgs.drop_last(), avail, used + spec_est_tokens(newest));
            (rest.0.push(newest), rest.1, rest.2)
        }
    }
}

fn clone_chat_message(m: &crate::openai::ChatMessage) -> (r: crate::openai::ChatMessage)
    ensures
        r == *m,
{
    crate::openai::ChatMessage { role: m.role.clone(), content: m.content.clone() }
}

fn est_tokens_exec(m: &crate::openai::ChatMessage) -> (r: usize)
    requires
        m.content@.len() < usize::MAX,
    ensures
        r == spec_est_tokens(*m),
{
    m.content.as_str().unicode_len() / 4 + 1
}

impl ParameterController {
    /// Builds the message context for one request: the system prompt when it
    /// fits, then as many of the newest messages as the context length minus
    /// the generation budget allows, in their original order.
    pub fn build_message_context(
        &self,
        messages: &Vec<crate::openai::ChatMessage>,
        system_prompt: Option<&str>,
        max_tokens: usize,
    ) -> (r: MessageContext)
        requires
            0 <= self.current_model_load_params.context_length,
            forall|j: int|
                0 <= j < messages@.len() ==> (#[trigger] messages@[j].content)@.len() < usize::MAX,
        ensures
            ({
                let avail = if self.current_model_load_params.context_length >= max_tokens {
                    self.current_model_load_params.context_length - max_tokens
                } else {
                    0int
                };
                let sys_tokens = match system_prompt {
                    Some(s) => s@.len() as int / 4 + 1,
                    None => 0int,
                };
                let sys_in = match system_prompt {
                    Some(s) => s@.len() as int / 4 + 1 < avail,
                    None => false,
                };
                let used0: int = if sys_in {
                    sys_tokens
                } else {
                    0
                };
                let fit = spec_fit_messages(messages@, avail, used0);
                &&& r.truncated == fit.2
                &&& r.estimated_tokens == fit.1
                &&& if sys_in {
                    &&& r.messages@.len() == fit.0.len() + 1
                    &&& r.messages@[0].role@ == "system"@
                    &&& (match system_prompt {
                        Some(s) => r.messages@[0].content@ == s@,
                        None => false,
                    })
                    &&& r.messages@.skip(1) == fit.0
                } else {
                    r.messages@ == fit.0
                }
            }),
    {
        let ghost ctx = self.current_model_load_params.context_length as int;
        let avail: usize = if self.current_model_load_params.context_length as usize >= max_tokens {
            self.current_model_load_params.context_length as usize - max_tokens
        } else {
            0
        };
        let mut prepared: Vec<crate::openai::ChatMessage> = Vec::new();
        let mut used: usize = 0;
        let mut sys_in: bool = false;
        match system_prompt {
            Some(system) => {
                let sys_tokens: usize = system.unicode_len() / 4 + 1;
                if sys_tokens < avail {
                    prepared.push(
                        crate::openai::ChatMessage {
                            role: "system".to_owned(),
                            content: system.to_owned(),
                        },
                    );
                    used = sys_tokens;
                    sys_in = true;
                }
            },
            None => {},
        }
        let ghost used0: int = used as int;
        let ghost msgs = messages@;
        let n: usize = messages.len();
        let mut cut: usize = n;
        let mut truncated: bool = false;
        let mut stop: bool = false;
        proof {
            assert(msgs.take(n as int) =~= msgs);
            assert(msgs.skip(n as int) =~= Seq::<crate::openai::ChatMessage>::empty());
            lemma_fit_take_all(msgs, avail as int, used0);
        }
        while cut > 0 && !stop
            invariant
                msgs == messages@,
                n == msgs.len(),
                cut <= n,
                used <= avail || (used == used0 && used0 >= 0),
                avail <= usize::MAX,
                forall|j: int|
                    0 <= j < msgs.len() ==> (#[trigger] msgs[j].content)@.len() < usize::MAX,
                !stop ==> spec_fit_messages(msgs, avail as int, used0) == (
                spec_fit_messages(msgs.take(cut as int), avail as int, used as int).0 + msgs.skip(
                    cut as int,
                ),
                spec_fit_messages(msgs.take(cut as int), avail as int, used as int).1,
                spec_fit_messages(msgs.take(cut as int), avail as int, used as int).2,
                ),
                !stop ==> !truncated,
                stop ==> spec_fit_messages(msgs, avail as int, used0) == (
                msgs.skip(cut as int),
                used as int,
                true,
                ) && truncated,
            decreases cut, (if stop { 0int } else { 1int }),
        {
            let est: usize = est_tokens_exec(&messages[cut - 1]);
            let ghost pre = msgs.take(cut as int);
            proof {
                assert(pre.last() == msgs[cut - 1int]);
                assert(pre.drop_last() =~= msgs.take(cut - 1int));
            }
            if used > avail || est > avail - used {
                proof {
                    assert(used + est > avail);
                }
                stop = true;
                truncated = true;
            } else {
                used = used + est;
                cut = cut - 1;
                proof {
                    assert(seq![msgs[cut as int]] + msgs.skip(cut + 1int) =~= msgs.skip(
                        cut as int,
                    ));
                    assert(spec_fit_messages(msgs.take(cut + 1int), avail as int, (used
                        - est) as int).0 + msgs.skip(cut + 1int) =~= spec_fit_messages(
                        msgs.take(cut as int),
                        avail as int,
                        used as int,
                    ).0 + msgs.skip(cut as int));
                }
            }
        }
        proof {
            if !stop {
                assert(cut == 0);
                assert(msgs.take(0int) =~= Seq::<crate::openai::ChatMessage>::empty());
                assert(msgs.skip(0int) =~= msgs);
                assert(spec_fit_messages(msgs, avail as int, used0) == (
                    msgs.skip(cut as int),
                    used as int,
                    false,
                ));
            }
        }
        let ghost kept = spec_fit_messages(msgs, avail as int, used0).0;
        let ghost base = prepared@;
        let mut j: usize = cut;
        while j < n
            invariant
                msgs == messages@,
                n == msgs.len(),
                cut <= j <= n,
                kept == msgs.skip(cut as int),
                prepared@ == base + msgs.subrange(cut as int, j as int),
            decreases n - j,
        {
            prepared.push(clone_chat_message(&messages[j]));
            j = j + 1;
            proof {
                assert(prepared@ =~= base + msgs.subrange(cut as int, j as int));
            }
        }
        proof {
            assert(msgs.subrange(cut as int, n as int) =~= msgs.skip(cut as int));
            if sys_in {
                assert(prepared@.skip(1) =~= kept);
            } else {
                assert(base =~= Seq::<crate::openai::ChatMessage>::empty());
                assert(prepared@ =~= kept);
            }
        }
        MessageContext { messages: prepared, estimated_tokens: used, truncated }
    }
}

/// Fitting an empty conversation keeps nothing and cuts nothing.
proof fn lemma_fit_take_all(msgs: Seq<crate::openai::ChatMessage>, avail: int, used: int)
    ensures
        spec_fit_messages(msgs, avail, used) == (
            spec_fit_messages(msgs.take(msgs.len() as int), avail, used).0 + msgs.skip(
                msgs.len() as int,
            ),
            spec_fit_messages(msgs.take(msgs.len() as int), avail, used).1,
            spec_fit_messages(msgs.take(msgs.len() as int), avail, used).2,
        ),
{
    assert(msgs.take(msgs.len() as int) =~= msgs);
    assert(msgs.skip(msgs.len() as int) =~= Seq::<crate::openai::ChatMessage>::empty());
    assert(spec_fit_messages(msgs, avail, used).0 + Seq::<crate::openai::ChatMessage>::empty()
        =~= spec_fit_messages(msgs, avail, used).0);
}

} // verus!
