//! Chat log bookkeeping: where the chat files live under the application's
//! home directory, and how raw titles are cleaned up.  Reading and writing
//! the files happens outside this crate.

use vstd::prelude::*;
use crate::text::is_suffix;

verus! {

#[derive(Clone, Copy, Debug, PartialEq, Eq, Structural)]
pub enum MessageRole {
    User,
    Assistant,
    System,
}

#[derive(Debug, Clone)]
pub struct ChatMessage {
    pub id: String,
    pub role: MessageRole,
    pub content: String,
    /// Unix seconds.
    pub created_at: i64,
    pub metadata: Option<MessageMetadata>,
}

#[derive(Debug, Clone)]
pub struct MessageMetadata {
    pub tokens_used: Option<u32>,
    pub model_response_time_ms: Option<u64>,
    pub stop_reason: Option<String>,
}

impl Default for MessageMetadata {
    fn default() -> (r: Self)
        ensures
            r.tokens_used is None,
            r.model_response_time_ms is None,
            r.stop_reason is None,
    {
        MessageMetadata { tokens_used: None, model_response_time_ms: None, stop_reason: None }
    }
}

/// Relies on `dirs::home_dir`: the platform home directory, which depends
/// on the environment, so nothing is assumed of the value.
#[verifier::external_body]
fn home_dir_string() -> (r: Option<String>)
{
    dirs::home_dir().and_then(|p| p.to_str().map(|s| s.to_string()))
}

/// The application's own directory under the user's home.
pub fn arandu_base_dir() -> (r: Result<String, String>)
    ensures
        match r {
            Ok(p) => is_suffix(p@, "/.Arandu"@),
            Err(m) => m@ == "Unable to resolve home directory"@,
        },
{
    match home_dir_string() {
        Some(home) => {
            let mut p = home;
            p.append("/.Arandu");
            proof {
                assert(p@.subrange(p@.len() - "/.Arandu"@.len(), p@.len() as int)
                    =~= "/.Arandu"@);
            }
            Ok(p)
        },
        None => Err("Unable to resolve home directory".to_owned()),
    }
}

/// Where chat logs are kept.
pub fn chats_dir() -> (r: Result<String, String>)
    ensures
        match r {
            Ok(p) => is_suffix(p@, "/.Arandu/chats"@),
            Err(m) => m@ == "Unable to resolve home directory"@,
        },
{
    match arandu_base_dir() {
        Ok(base) => {
            let ghost b = base@;
            let mut p = base;
            p.append("/chats");
            proof {
                reveal_strlit("/.Arandu");
                reveal_strlit("/chats");
                reveal_strlit("/.Arandu/chats");
                crate::text::lemma_suffix_extend(b, "/.Arandu"@, "/chats"@);
                assert("/.Arandu"@ + "/chats"@ =~= "/.Arandu/chats"@);
            }
            Ok(p)
        },
        Err(e) => Err(e),
    }
}

/// Where the chat index lives.
pub fn chats_index_path() -> (r: Result<String, String>)
    ensures
        match r {
            Ok(p) => is_suffix(p@, "/.Arandu/chats/index.json"@),
            Err(m) => m@ == "Unable to resolve home directory"@,
        },
{
    match chats_dir() {
        Ok(dir) => {
            let ghost b = dir@;
            let mut p = dir;
            p.append("/index.json");
            proof {
                reveal_strlit("/.Arandu/chats");
                reveal_strlit("/index.json");
                reveal_strlit("/.Arandu/chats/index.json");
                crate::text::lemma_suffix_extend(b, "/.Arandu/chats"@, "/index.json"@);
                assert("/.Arandu/chats"@ + "/index.json"@ =~= "/.Arandu/chats/index.json"@);
            }
            Ok(p)
        },
        Err(e) => Err(e),
    }
}

/// Where one chat's markdown log lives.
pub fn chat_markdown_path(chat_id: &str) -> (r: Result<String, String>)
    ensures
        match r {
            Ok(p) => is_suffix(p@, "/"@ + chat_id@ + ".md"@),
            Err(m) => m@ == "Unable to resolve home directory"@,
        },
{
    match chats_dir() {
        Ok(dir) => {
            let mut p = dir;
            p.append("/");
            p.append(chat_id);
            p.append(".md");
            proof {
                let suffix = "/"@ + chat_id@ + ".md"@;
                assert(p@.subrange(p@.len() - suffix.len(), p@.len() as int) =~= suffix);
            }
            Ok(p)
        },
        Err(e) => Err(e),
    }
}

/// Where the settings file lives.
pub fn get_settings_path() -> (r: Result<String, String>)
    ensures
        match r {
            Ok(p) => is_suffix(p@, "/.Arandu/launcher_settings.json"@),
            Err(m) => m@ == "Unable to resolve home directory"@,
        },
{
    match arandu_base_dir() {
        Ok(base) => {
            let ghost b = base@;
            let mut p = base;
            p.append("/launcher_settings.json");
            proof {
                reveal_strlit("/.Arandu");
                reveal_strlit("/launcher_settings.json");
                reveal_strlit("/.Arandu/launcher_settings.json");
                crate::text::lemma_suffix_extend(b, "/.Arandu"@, "/launcher_settings.json"@);
                assert("/.Arandu"@ + "/launcher_settings.json"@
                    =~= "/.Arandu/launcher_settings.json"@);
            }
            Ok(p)
        },
        Err(e) => Err(e),
    }
}

/// Knows where chat sessions are stored.
#[derive(Debug)]
pub struct ChatManager {
    pub chats_dir: String,
    pub index_path: String,
}

pub open spec fn chat_manager_wf(m: ChatManager) -> bool {
    &&& is_suffix(m.chats_dir@, "/.Arandu/chats"@)
    &&& m.index_path@ == m.chats_dir@ + "/index.json"@
}

impl ChatManager {
    pub fn new() -> (r: Result<ChatManager, String>)
        ensures
            match r {
                Ok(m) => chat_manager_wf(m),
                Err(m) => m@ == "Unable to resolve home directory"@,
            },
    {
        match chats_dir() {
            Ok(dir) => {
                let mut index_path = dir.clone();
                index_path.append("/index.json");
                Ok(ChatManager { chats_dir: dir, index_path })
            },
            Err(e) => Err(e),
        }
    }

    /// Where one chat session's file lives.
    pub fn get_chat_file_path(&self, chat_id: &str) -> (r: String)
        ensures
            r@ == self.chats_dir@ + "/"@ + chat_id@ + ".json"@,
    {
        let mut p = self.chats_dir.clone();
        p.append("/");
        p.append(chat_id);
        p.append(".json");
        proof {
            assert(p@ =~= self.chats_dir@ + "/"@ + chat_id@ + ".json"@);
        }
        p
    }
}

/// A raw chat title cleaned for display: whitespace runs collapse to single
/// spaces, blank titles get a stand-in, and long ones are cut at eighty
/// characters.
pub open spec fn spec_sanitize_chat_title(raw: Seq<char>) -> Seq<char> {
    let cleaned = crate::text::spec_join_tokens(
        crate::text::spec_ws_tokens(raw, 0, Seq::empty()),
        0,
        Seq::empty(),
    );
    if cleaned.len() == 0 {
        "Untitled Chat"@
    } else if cleaned.len() > 80 {
        cleaned.take(80)
    } else {
        cleaned
    }
}

/// Cleans a raw chat title for display.
pub fn sanitize_chat_title(raw: &str) -> (r: String)
    ensures
        r@ == spec_sanitize_chat_title(raw@),
{
    let words = crate::text::ws_tokens_exec(raw);
    let cleaned = crate::text::join_tokens(&words);
    let n: usize = cleaned.as_str().unicode_len();
    if n == 0 {
        "Untitled Chat".to_owned()
    } else if n > 80 {
        let cv = crate::text::to_char_vec(cleaned.as_str());
        let cut = crate::text::subvec(&cv, 0, 80);
        proof {
            assert(cut@ =~= spec_sanitize_chat_title(raw@));
        }
        crate::text::string_of_chars(&cut)
    } else {
        cleaned
    }
}

} // verus!
