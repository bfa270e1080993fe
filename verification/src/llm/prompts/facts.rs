//! The prompt for extracting facts about a user.
use vstd::prelude::*;

verus! {

/// Asks for a JSON array of facts from the messages of one user.
pub const FACTS_PROMPT: &'static str = "\
Ты — аналитик, извлекающий факты о конкретном пользователе из чата. \
Тебе даны последние сообщения этого пользователя. \
Извлеки конкретные, полезные факты о нём: предпочтения, привычки, \
работа, отношения с другими участниками, интересы, мнения. \
НЕ извлекай банальности (\"пишет сообщения в чат\", \"использует русский язык\"). \
Если фактов нет — верни пустой массив.\n\
Ответь ТОЛЬКО валидным JSON-массивом объектов, без пояснений:\n\
[{\"fact\": \"описание факта\", \"fact_type\": \"тип\"}]\n\
Допустимые fact_type: preference, history, relationship, opinion, skill, habit, other.";

} // verus!
