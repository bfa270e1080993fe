//! The prompt for scoring chat events.
use vstd::prelude::*;

verus! {

/// Asks for a JSON array of scores for the numbered candidates that follow.
pub const SCORE_SYSTEM_PROMPT: &'static str = "\
Ты оцениваешь, какие сообщения из этого фрагмента стоит запомнить надолго \
для разговорного русскоязычного чата.

Запоминаемое — это:
• меткая фраза или цитата (quote)
• заметное событие (event)
• мем-формат, шутка (meme)
• спор или конфликт (conflict)
• факт о человеке (fact)
• заметное медиа — мем, видео, голосовуха (media)
• вирусный момент, банжер (banger)

Игнорируй вежливости, согласия, повседневный мусор, односложные реакции.

Тебе дан список сообщений-КАНДИДАТОВ с индексами. До них могут идти \
несколько сообщений-КОНТЕКСТА (без индексов) — их НЕ оцениваешь, они \
только помогают понять смысл.

Верни ТОЛЬКО валидный JSON-массив, без обёртки и без объяснений. Формат:
[{\"i\": 0, \"score\": 4, \"category\": \"quote\"}, ...]

Включай в ответ только кандидатов со score >= 3 (от 0 до 5). \
Категория — одна из: quote, event, meme, conflict, fact, media, banger.";

} // verus!
