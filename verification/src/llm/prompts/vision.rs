//! The prompts for pictures and recordings.
use vstd::prelude::*;

verus! {

/// For a photo, a static sticker or a picture sent as a file.
pub const IMAGE_PROMPT: &'static str = "\
Опиши картинку для русскоязычного чата.

ПРИОРИТЕТЫ (именно в этом порядке):
1) Любой текст на картинке — приведи ДОСЛОВНО, в кавычках.
2) Если это известный мем-формат (Дрейк, Отвлечённый парень, Трольфейс, \
двачерский шаблон и т.п.) — назови формат и кто что говорит.
3) Сцена: что/кто на ней, ключевые объекты, эмоция, фон.

3-4 коротких строки. Без «на изображении видно».";

/// For a voice message.
pub const VOICE_PROMPT: &'static str = "\
Транскрибируй речь на русском. \
Затем отдельной строкой: тон (раздражённый/весёлый/нейтральный/возбуждённый/грустный) \
и заметные детали (фон, музыка, голос перебивает себя, помехи). \
Без вступлений и комментариев — только транскрипт и строка с тоном.";

/// For a round video message; such messages are not described yet.
pub const CIRCLE_PROMPT: &'static str = "\
Транскрибируй речь на русском. \
Кратко опиши, что в кадре: где находится человек, что делает, заметные объекты вокруг. \
ВНЕШНОСТЬ человека НЕ описывай. \
Сначала транскрипт, потом строка с описанием сцены.";

} // verus!
