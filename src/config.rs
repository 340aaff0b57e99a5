//! Persisted settings: the AI credential, the rewrite style and custom
//! rewrite instructions. Reading and writing the settings file happens
//! outside the library; these are the in-memory rules.

use vstd::prelude::*;
use crate::text::{push_str_chars, same_chars};

verus! {

/// Why settings could not be used.
#[derive(Debug)]
pub enum ConfigError {
    Io(String),
    Json(String),
    HomeNotFound,
    ApiKeyNotSet,
}

/// The user's settings.
#[derive(Clone, Debug)]
pub struct Config {
    pub openai_api_key: Option<String>,
    pub ai_enabled: bool,
    pub ai_prompt_style: String,
    pub custom_ai_prompt: Option<String>,
}

pub open spec fn base_instruction() -> Seq<char> {
    "You are an expert writing assistant. Your task is to clean up and improve notes while preserving their original meaning and structure. Keep the same tone but make the text clearer, fix grammar, improve organization, and ensure proper markdown formatting. Do not add new information or change the core content. Return only the improved text without any additional commentary, introductions, or explanations."@
}

/// The instruction added for a rewrite style; empty for an unknown style.
pub open spec fn style_instruction(style: Seq<char>) -> Seq<char> {
    if style == "professional"@ {
        " Make the writing more professional and polished."@
    } else if style == "casual"@ {
        " Keep the writing casual and conversational."@
    } else if style == "concise"@ {
        " Make the writing more concise and to the point."@
    } else if style == "detailed"@ {
        " Expand on ideas and add more detail where appropriate."@
    } else if style == "technical"@ {
        " Use more technical language and precise terminology."@
    } else if style == "simple"@ {
        " Simplify the language and make it easier to understand."@
    } else {
        Seq::empty()
    }
}

/// The system prompt for rewriting: the base instruction, then the style's
/// instruction; for the custom style with instructions set, the base
/// instruction, a space and those instructions.
pub open spec fn system_prompt(style: Seq<char>, custom: Option<Seq<char>>) -> Seq<char> {
    if style == "custom"@ && custom is Some {
        base_instruction() + " "@ + custom->0
    } else {
        base_instruction() + style_instruction(style)
    }
}

fn style_text(style: &str) -> (r: &'static str)
    ensures
        r@ == style_instruction(style@),
{
    if same_chars(style, "professional") {
        " Make the writing more professional and polished."
    } else if same_chars(style, "casual") {
        " Keep the writing casual and conversational."
    } else if same_chars(style, "concise") {
        " Make the writing more concise and to the point."
    } else if same_chars(style, "detailed") {
        " Expand on ideas and add more detail where appropriate."
    } else if same_chars(style, "technical") {
        " Use more technical language and precise terminology."
    } else if same_chars(style, "simple") {
        " Simplify the language and make it easier to understand."
    } else {
        proof {
            reveal_strlit("");
        }
        ""
    }
}

impl Config {
    /// The settings of a fresh installation: no key, AI off, the
    /// professional style, no custom instructions.
    pub fn new_default() -> (r: Config)
        ensures
            r.openai_api_key is None,
            !r.ai_enabled,
            r.ai_prompt_style@ == "professional"@,
            r.custom_ai_prompt is None,
    {
        Config {
            openai_api_key: None,
            ai_enabled: false,
            ai_prompt_style: "professional".to_string(),
            custom_ai_prompt: None,
        }
    }

    /// Stores the key and turns AI on.
    pub fn set_api_key(&mut self, api_key: String)
        ensures
            final(self).openai_api_key == Some(api_key),
            final(self).ai_enabled,
            final(self).ai_prompt_style == old(self).ai_prompt_style,
            final(self).custom_ai_prompt == old(self).custom_ai_prompt,
    {
        self.openai_api_key = Some(api_key);
        self.ai_enabled = true;
    }

    /// The stored key, or `ApiKeyNotSet`.
    pub fn get_api_key(&self) -> (r: Result<&str, ConfigError>)
        ensures
            match self.openai_api_key {
                Some(k) => r matches Ok(s) && s@ == k@,
                None => r matches Err(ConfigError::ApiKeyNotSet),
            },
    {
        match &self.openai_api_key {
            Some(k) => Ok(k.as_str()),
            None => Err(ConfigError::ApiKeyNotSet),
        }
    }

    /// Whether a non-empty key is stored.
    pub fn has_api_key(&self) -> (r: bool)
        ensures
            r == (self.openai_api_key is Some && self.openai_api_key->0@.len() > 0),
    {
        match &self.openai_api_key {
            Some(k) => !k.as_str().is_empty(),
            None => false,
        }
    }

    /// Forgets the key and turns AI off.
    pub fn clear_api_key(&mut self)
        ensures
            final(self).openai_api_key is None,
            !final(self).ai_enabled,
            final(self).ai_prompt_style == old(self).ai_prompt_style,
            final(self).custom_ai_prompt == old(self).custom_ai_prompt,
    {
        self.openai_api_key = None;
        self.ai_enabled = false;
    }

    pub fn set_prompt_style(&mut self, style: String)
        ensures
            final(self).ai_prompt_style == style,
            final(self).openai_api_key == old(self).openai_api_key,
            final(self).ai_enabled == old(self).ai_enabled,
            final(self).custom_ai_prompt == old(self).custom_ai_prompt,
    {
        self.ai_prompt_style = style;
    }

    pub fn set_custom_prompt(&mut self, prompt: Option<String>)
        ensures
            final(self).custom_ai_prompt == prompt,
            final(self).openai_api_key == old(self).openai_api_key,
            final(self).ai_enabled == old(self).ai_enabled,
            final(self).ai_prompt_style == old(self).ai_prompt_style,
    {
        self.custom_ai_prompt = prompt;
    }

    /// The system prompt that rewriting sends, built from the style and the
    /// custom instructions.
    pub fn get_ai_system_prompt(&self) -> (r: String)
        ensures
            r@ == system_prompt(
                self.ai_prompt_style@,
                match self.custom_ai_prompt {
                    Some(c) => Some(c@),
                    None => None,
                },
            ),
    {
        let mut r = String::new();
        push_str_chars(&mut r, "You are an expert writing assistant. Your task is to clean up and improve notes while preserving their original meaning and structure. Keep the same tone but make the text clearer, fix grammar, improve organization, and ensure proper markdown formatting. Do not add new information or change the core content. Return only the improved text without any additional commentary, introductions, or explanations.");
        if same_chars(self.ai_prompt_style.as_str(), "custom") {
            if let Some(custom) = &self.custom_ai_prompt {
                push_str_chars(&mut r, " ");
                push_str_chars(&mut r, custom.as_str());
                assert(r@ =~= base_instruction() + " "@ + custom@);
                return r;
            }
        }
        push_str_chars(&mut r, style_text(self.ai_prompt_style.as_str()));
        r
    }
}

impl Default for Config {
    fn default() -> (r: Config)
        ensures
            r.openai_api_key is None,
            !r.ai_enabled,
            r.ai_prompt_style@ == "professional"@,
            r.custom_ai_prompt is None,
    {
        Config::new_default()
    }
}

} // verus!
