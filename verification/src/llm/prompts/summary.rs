//! The prompts for summaries of a chat.
use vstd::prelude::*;

verus! {

/// Asks for a summary of a fragment of a chat.
pub const SUMMARY_PROMPT: &'static str = "\
Ты — помощник для краткого пересказа чата. \
Тебе дан фрагмент группового Telegram-чата. \
Напиши краткое саммари в 2-3 предложениях на русском. \
Уложи основные темы, ключевые решения и заметные события. \
Не указывай время/дату, не нумеруй пункты, пиши сплошным текстом. \
Если в чате были медиа — упомяни их кратко (например, «обсуждали мем про ...»).";

/// Asks for a portrait of a chat from its latest summaries.
pub const DNA_PROMPT: &'static str = "\
Тебе даны последние саммари группового Telegram-чата. \
Опиши в 1-2 предложениях, что это за чат: кто в нём сидит и о чём он. \
Пиши сплошным текстом на русском, без вступлений.";

} // verus!
