//! The operations on Redis and on the working memory, run against a server in
//! memory.
use std::collections::{HashMap, HashSet};

use ragtg_bot::bot::handlers::rate_limit_pass;
use ragtg_bot::config::RateLimitConfig;
use ragtg_bot::error::Error;
use ragtg_bot::memory::working::{
    get_window, key, patch_media_desc, push, Decoded, WindowEvent, WindowStep, WorkingMessage,
};
use ragtg_bot::storage::redis::{
    acquire_vision_slot, check_ask_cooldown, check_chat_quota, check_user_cooldown, get_chat_dna,
    get_media_desc, healthcheck, incr_episodic_counter, incr_facts_counter, len_event_candidates,
    pop_event_candidates, push_event_candidate, put_media_desc, record_unique_event_hash,
    release_vision_slot, requeue_event_candidates, reset_episodic_counter, reset_facts_counter,
    set_chat_dna, Command, Datum, Outcome, Reply, Step, VISION_SLOT_KEY,
};
use serde_json::Value;

enum Stored {
    Text(String),
    List(Vec<String>),
    Members(HashSet<String>),
}

struct Fake {
    values: HashMap<String, Stored>,
    ttl: HashMap<String, i64>,
}

fn range(l: &[String], start: i64, stop: i64) -> Vec<String> {
    let n = l.len() as i64;
    let a = if start < 0 { (n + start).max(0) } else { start };
    let b = if stop < 0 { n + stop } else { stop.min(n - 1) };
    if a > b || a >= n {
        Vec::new()
    } else {
        l[a as usize..=b as usize].to_vec()
    }
}

impl Fake {
    fn new() -> Fake {
        Fake { values: HashMap::new(), ttl: HashMap::new() }
    }

    fn pass(&mut self, seconds: i64) {
        let keys: Vec<String> = self.ttl.keys().cloned().collect();
        for k in keys {
            let left = self.ttl[&k] - seconds;
            if left <= 0 {
                self.ttl.remove(&k);
                self.values.remove(&k);
            } else {
                self.ttl.insert(k, left);
            }
        }
    }

    fn add(&mut self, key: &str, by: i64) -> Reply {
        let now = match self.values.get(key) {
            Some(Stored::Text(t)) => t.parse::<i64>().unwrap(),
            None => 0,
            _ => panic!("not a number"),
        };
        self.values.insert(key.to_string(), Stored::Text((now + by).to_string()));
        Reply::Int(now + by)
    }

    fn list(&mut self, key: &str) -> &mut Vec<String> {
        let v = self.values.entry(key.to_string()).or_insert(Stored::List(Vec::new()));
        match v {
            Stored::List(l) => l,
            _ => panic!("not a list"),
        }
    }

    fn exec(&mut self, c: &Command) -> Reply {
        let w = c.words();
        let k = if w.len() > 1 { w[1].clone() } else { String::new() };
        match w[0].as_str() {
            "PING" => Reply::Status("PONG".to_string()),
            "GET" => match self.values.get(&k) {
                Some(Stored::Text(t)) => Reply::Bulk(t.clone()),
                None => Reply::Nil,
                _ => panic!("not a text"),
            },
            "SET" => {
                let nx = w.iter().any(|x| x == "NX");
                if nx && self.values.contains_key(&k) {
                    return Reply::Nil;
                }
                self.values.insert(k.clone(), Stored::Text(w[2].clone()));
                match w.iter().position(|x| x == "EX") {
                    Some(i) => {
                        self.ttl.insert(k, w[i + 1].parse().unwrap());
                    }
                    None => {
                        self.ttl.remove(&k);
                    }
                }
                Reply::Status("OK".to_string())
            }
            "TTL" => {
                if !self.values.contains_key(&k) {
                    Reply::Int(-2)
                } else {
                    Reply::Int(*self.ttl.get(&k).unwrap_or(&-1))
                }
            }
            "INCR" => self.add(&k, 1),
            "DECR" => self.add(&k, -1),
            "DEL" => {
                self.ttl.remove(&k);
                Reply::Int(self.values.remove(&k).is_some() as i64)
            }
            "EXPIRE" => {
                if self.values.contains_key(&k) {
                    self.ttl.insert(k, w[2].parse().unwrap());
                    Reply::Int(1)
                } else {
                    Reply::Int(0)
                }
            }
            "LPUSH" => {
                let l = self.list(&k);
                l.insert(0, w[2].clone());
                Reply::Int(l.len() as i64)
            }
            "RPUSH" => {
                let l = self.list(&k);
                l.push(w[2].clone());
                Reply::Int(l.len() as i64)
            }
            "LTRIM" => {
                let l = self.list(&k);
                *l = range(l, w[2].parse().unwrap(), w[3].parse().unwrap());
                Reply::Status("OK".to_string())
            }
            "LRANGE" => {
                let (a, b) = (w[2].parse().unwrap(), w[3].parse().unwrap());
                match self.values.get(&k) {
                    Some(Stored::List(l)) => Reply::List(range(l, a, b)),
                    _ => Reply::List(Vec::new()),
                }
            }
            "LSET" => {
                let i: usize = w[2].parse().unwrap();
                let l = self.list(&k);
                l[i] = w[3].clone();
                Reply::Status("OK".to_string())
            }
            "LLEN" => match self.values.get(&k) {
                Some(Stored::List(l)) => Reply::Int(l.len() as i64),
                _ => Reply::Int(0),
            },
            "SADD" => {
                let v = self.values.entry(k).or_insert(Stored::Members(HashSet::new()));
                match v {
                    Stored::Members(m) => Reply::Int(m.insert(w[2].clone()) as i64),
                    _ => panic!("not a set"),
                }
            }
            other => panic!("unknown command {other}"),
        }
    }

    fn batch(&mut self, cs: &[Command]) -> Outcome {
        Outcome::Replied(cs.iter().map(|c| self.exec(c)).collect())
    }

    fn run<T>(&mut self, op: impl Fn(&[Outcome]) -> Step<T>) -> Result<T, Error> {
        let mut seen: Vec<Outcome> = Vec::new();
        loop {
            match op(&seen) {
                Step::Run(cs) => {
                    let o = self.batch(&cs);
                    seen.push(o);
                }
                Step::Done(v) => return Ok(v),
                Step::Fail(e) => return Err(e),
            }
        }
    }

    fn run_window<T>(
        &mut self,
        op: impl Fn(&[WindowEvent]) -> WindowStep<T>,
    ) -> Result<T, Error> {
        let mut seen: Vec<WindowEvent> = Vec::new();
        loop {
            let event = match op(&seen) {
                WindowStep::Run(cs) => WindowEvent::Ran(self.batch(&cs)),
                WindowStep::Decode(texts) => {
                    WindowEvent::Read(texts.iter().map(|t| decode(t)).collect())
                }
                WindowStep::Encode(m) => WindowEvent::Wrote(encode(&m)),
                WindowStep::Done(v) => return Ok(v),
                WindowStep::Fail(e) => return Err(e),
            };
            seen.push(event);
        }
    }
}

fn opt(s: &Option<String>) -> Value {
    match s {
        Some(t) => Value::String(t.clone()),
        None => Value::Null,
    }
}

fn encode(m: &WorkingMessage) -> String {
    let mut o = serde_json::Map::new();
    o.insert("user_id".to_string(), Value::from(m.user_id));
    o.insert("username".to_string(), opt(&m.username));
    o.insert("text".to_string(), Value::from(m.text.clone()));
    o.insert("media_desc".to_string(), opt(&m.media_desc));
    o.insert("ts".to_string(), Value::from(m.ts));
    if let Some(id) = m.tg_message_id {
        o.insert("tg_message_id".to_string(), Value::from(id));
    }
    Value::Object(o).to_string()
}

fn decode(s: &str) -> Decoded {
    let v: Value = match serde_json::from_str(s) {
        Ok(v) => v,
        Err(e) => return Decoded::Corrupt(e.to_string()),
    };
    let text = |name: &str| v.get(name).and_then(|x| x.as_str()).map(String::from);
    Decoded::Entry(WorkingMessage {
        user_id: v.get("user_id").and_then(|x| x.as_i64()).unwrap(),
        username: text("username"),
        text: text("text").unwrap(),
        media_desc: text("media_desc"),
        ts: v.get("ts").and_then(|x| x.as_i64()).unwrap(),
        tg_message_id: v.get("tg_message_id").and_then(|x| x.as_i64()),
    })
}

fn mk(user_id: i64, text: &str, ts: i64) -> WorkingMessage {
    WorkingMessage {
        user_id,
        username: Some(format!("user{user_id}")),
        text: text.to_string(),
        media_desc: None,
        ts,
        tg_message_id: None,
    }
}

fn push_one(f: &mut Fake, chat_id: i64, m: &WorkingMessage, size: u32, days: u32) {
    assert!(f.run_window(|seen| push(chat_id, m, size, days, seen)).is_ok());
}

fn window(f: &mut Fake, chat_id: i64, n: u32) -> Vec<WorkingMessage> {
    match f.run_window(|seen| get_window(chat_id, n, seen)) {
        Ok(w) => w,
        Err(e) => panic!("{}", e.message()),
    }
}

fn ok<T>(r: Result<T, Error>) -> T {
    match r {
        Ok(v) => v,
        Err(e) => panic!("{}", e.message()),
    }
}

fn message_of<T>(s: Step<T>) -> String {
    match s {
        Step::Fail(e) => e.message(),
        _ => panic!("no failure"),
    }
}

#[test]
fn push_then_get_returns_chronological_order() {
    let mut f = Fake::new();
    let chat_id: i64 = -100_000_000_001;
    for i in 0..5_i64 {
        push_one(&mut f, chat_id, &mk(i, &format!("hello {i}"), 1000 + i), 30, 7);
    }
    let window = window(&mut f, chat_id, 30);
    assert_eq!(window.len(), 5);
    for (i, m) in window.iter().enumerate() {
        assert_eq!(m.text, format!("hello {i}"));
        assert_eq!(m.user_id, i as i64);
        assert_eq!(m.ts, 1000 + i as i64);
    }
}

#[test]
fn push_trims_to_window_size() {
    let mut f = Fake::new();
    let chat_id: i64 = -100_000_000_002;
    for i in 0..35_i64 {
        push_one(&mut f, chat_id, &mk(i, &format!("m{i}"), i), 30, 7);
    }
    let window = window(&mut f, chat_id, 100);
    assert_eq!(window.len(), 30, "should trim to window_size = 30");
    assert_eq!(window.first().unwrap().text, "m5");
    assert_eq!(window.last().unwrap().text, "m34");
}

#[test]
fn push_with_zero_window_size_is_noop() {
    let mut f = Fake::new();
    let chat_id: i64 = -100_000_000_005;
    push_one(&mut f, chat_id, &mk(1, "ghost", 1), 0, 7);
    let window = window(&mut f, chat_id, 30);
    assert!(window.is_empty(), "window_size = 0 must keep nothing");
    assert!(f.values.is_empty());
}

#[test]
fn get_window_on_empty_returns_empty() {
    let mut f = Fake::new();
    let chat_id: i64 = -100_000_000_003;
    let window = window(&mut f, chat_id, 30);
    assert!(window.is_empty());
}

#[test]
fn patch_media_desc_updates_entry_in_place() {
    let mut f = Fake::new();
    let chat_id: i64 = -100_000_000_006;
    let mut a = mk(1, "first", 1);
    a.tg_message_id = Some(101);
    let mut b = mk(2, "", 2);
    b.tg_message_id = Some(102);
    let mut c = mk(3, "third", 3);
    c.tg_message_id = Some(103);
    push_one(&mut f, chat_id, &a, 30, 7);
    push_one(&mut f, chat_id, &b, 30, 7);
    push_one(&mut f, chat_id, &c, 30, 7);

    let patched =
        ok(f.run_window(|seen| patch_media_desc(chat_id, 102, "это мем про кота", seen)));
    assert!(patched, "should report a hit");

    let window = window(&mut f, chat_id, 30);
    assert_eq!(window.len(), 3);
    assert_eq!(window[0].text, "first");
    assert_eq!(window[1].text, "");
    assert_eq!(window[1].media_desc.as_deref(), Some("это мем про кота"));
    assert_eq!(window[2].text, "third");
    assert_eq!(window[0].media_desc, None);
    assert_eq!(window[1].user_id, 2);
    assert_eq!(window[1].tg_message_id, Some(102));
}

#[test]
fn patch_media_desc_returns_false_for_unknown_id() {
    let mut f = Fake::new();
    let chat_id: i64 = -100_000_000_007;
    let mut a = mk(1, "x", 1);
    a.tg_message_id = Some(50);
    push_one(&mut f, chat_id, &a, 30, 7);
    let patched = ok(f.run_window(|seen| patch_media_desc(chat_id, 999, "ignored", seen)));
    assert!(!patched, "no entry with tg_message_id=999");
    assert_eq!(window(&mut f, chat_id, 30)[0].media_desc, None);
}

#[test]
fn push_sets_expire() {
    let mut f = Fake::new();
    let chat_id: i64 = -100_000_000_004;
    push_one(&mut f, chat_id, &mk(1, "x", 1), 30, 7);
    let ttl = f.ttl[&key(chat_id)];
    assert!((604_000..=604_800).contains(&ttl), "unexpected TTL {ttl}");
    assert_eq!(ttl, 604_800);
}

#[test]
fn window_key_names_the_chat() {
    assert_eq!(key(-100), "chat:-100:window");
}

#[test]
fn corrupt_entry_fails_the_window_but_not_the_patch() {
    let mut f = Fake::new();
    let mut a = mk(1, "a", 1);
    a.tg_message_id = Some(7);
    push_one(&mut f, 5, &a, 30, 7);
    f.list(&key(5)).insert(0, "not json".to_string());
    assert!(matches!(f.run_window(|seen| get_window(5, 30, seen)), Err(Error::Other(_))));
    assert!(ok(f.run_window(|seen| patch_media_desc(5, 7, "d", seen))));
    assert_eq!(f.list(&key(5))[0], "not json");
    assert!(f.list(&key(5))[1].contains("\"d\""));
}

#[test]
fn window_reports_what_redis_reports() {
    let refused = [WindowEvent::Ran(Outcome::NoConnection("boom".to_string()))];
    match get_window(1, 3, &refused) {
        WindowStep::Fail(e) => assert_eq!(e.message(), "redis error: get conn: boom"),
        _ => panic!("no failure"),
    }
    let broken = [
        WindowEvent::Wrote("p".to_string()),
        WindowEvent::Ran(Outcome::Failed("boom".to_string())),
    ];
    match push(1, &mk(1, "x", 1), 3, 7, &broken) {
        WindowStep::Fail(e) => assert_eq!(e.message(), "redis error: pipeline: boom"),
        _ => panic!("no failure"),
    }
    let unwritten = [WindowEvent::NotWritten("bad".to_string())];
    match push(1, &mk(1, "x", 1), 3, 7, &unwritten) {
        WindowStep::Fail(e) => assert_eq!(e.message(), "bad"),
        _ => panic!("no failure"),
    }
}

#[test]
fn user_cooldown_blocks_second_call_within_window() {
    let mut f = Fake::new();
    let user_id: i64 = -777_001;
    assert!(ok(f.run(|seen| check_user_cooldown(user_id, 30, seen))));
    assert!(!ok(f.run(|seen| check_user_cooldown(user_id, 30, seen))));
    f.pass(30);
    assert!(ok(f.run(|seen| check_user_cooldown(user_id, 30, seen))));
}

#[test]
fn user_cooldown_zero_is_disabled() {
    let mut f = Fake::new();
    let user_id: i64 = -777_002;
    for _ in 0..5 {
        assert!(ok(f.run(|seen| check_user_cooldown(user_id, 0, seen))));
    }
    assert!(f.values.is_empty());
}

#[test]
fn chat_quota_blocks_after_max() {
    let mut f = Fake::new();
    let chat_id: i64 = -777_003;
    for i in 0..10 {
        assert!(ok(f.run(|seen| check_chat_quota(chat_id, 10, seen))), "call #{i} must pass");
    }
    assert!(!ok(f.run(|seen| check_chat_quota(chat_id, 10, seen))));
    assert!(!ok(f.run(|seen| check_chat_quota(chat_id, 10, seen))));
    f.pass(60);
    assert!(ok(f.run(|seen| check_chat_quota(chat_id, 10, seen))));
}

#[test]
fn chat_quota_zero_is_disabled() {
    let mut f = Fake::new();
    let chat_id: i64 = -777_004;
    for _ in 0..20 {
        assert!(ok(f.run(|seen| check_chat_quota(chat_id, 0, seen))));
    }
}

#[test]
fn media_desc_round_trip() {
    let mut f = Fake::new();
    let sha = "deadbeefcafebabe1111";
    assert!(ok(f.run(|seen| get_media_desc(sha, seen))).is_none());
    ok(f.run(|seen| put_media_desc(sha, "котик с подписью «соси»", 30, seen)));
    let got = ok(f.run(|seen| get_media_desc(sha, seen)));
    assert_eq!(got.as_deref(), Some("котик с подписью «соси»"));
    assert_eq!(f.ttl["media:deadbeefcafebabe1111"], 2_592_000);
    f.pass(2_592_000);
    assert!(ok(f.run(|seen| get_media_desc(sha, seen))).is_none());
}

#[test]
fn vision_slot_acquire_release_cycle() {
    let mut f = Fake::new();
    for i in 0..5 {
        assert!(ok(f.run(|seen| acquire_vision_slot(5, seen))), "slot {i} must be free");
    }
    assert!(!ok(f.run(|seen| acquire_vision_slot(5, seen))));
    ok(f.run(|seen| release_vision_slot(seen)));
    assert!(ok(f.run(|seen| acquire_vision_slot(5, seen))));
    for _ in 0..5 {
        ok(f.run(|seen| release_vision_slot(seen)));
    }
    assert!(matches!(f.values.get(VISION_SLOT_KEY), Some(Stored::Text(t)) if t == "0"));
}

#[test]
fn vision_slot_zero_max_disables() {
    let mut f = Fake::new();
    for _ in 0..20 {
        assert!(ok(f.run(|seen| acquire_vision_slot(0, seen))));
    }
    assert!(f.values.is_empty());
}

#[test]
fn vision_slot_guard_and_reset() {
    let mut f = Fake::new();
    assert!(ok(f.run(|seen| acquire_vision_slot(2, seen))));
    assert_eq!(f.ttl[VISION_SLOT_KEY], 300);
    ok(f.run(|seen| release_vision_slot(seen)));
    ok(f.run(|seen| release_vision_slot(seen)));
    assert!(matches!(f.values.get(VISION_SLOT_KEY), Some(Stored::Text(t)) if t == "0"));
    assert_eq!(f.ttl[VISION_SLOT_KEY], 300);
    for _ in 0..2 {
        assert!(ok(f.run(|seen| acquire_vision_slot(2, seen))));
    }
    assert!(!ok(f.run(|seen| acquire_vision_slot(2, seen))));
}

#[test]
fn a_stray_release_resets_an_absent_counter() {
    let mut f = Fake::new();
    ok(f.run(|seen| release_vision_slot(seen)));
    assert!(matches!(f.values.get(VISION_SLOT_KEY), Some(Stored::Text(t)) if t == "0"));
    for _ in 0..3 {
        assert!(ok(f.run(|seen| acquire_vision_slot(3, seen))));
    }
    assert!(!ok(f.run(|seen| acquire_vision_slot(3, seen))));
}

#[test]
fn ask_cooldown_is_per_user() {
    let mut f = Fake::new();
    assert_eq!(ok(f.run(|seen| check_ask_cooldown(9, 60, seen))), 0);
    assert_eq!(ok(f.run(|seen| check_ask_cooldown(10, 60, seen))), 0);
    f.pass(25);
    assert_eq!(ok(f.run(|seen| check_ask_cooldown(9, 60, seen))), 35);
    assert_eq!(ok(f.run(|seen| check_ask_cooldown(10, 60, seen))), 35);
}

#[test]
fn chat_quota_sets_expire_on_first_hit() {
    let mut f = Fake::new();
    let chat_id: i64 = -777_005;
    assert!(ok(f.run(|seen| check_chat_quota(chat_id, 10, seen))));
    let ttl = f.ttl["rl:chat:-777005"];
    assert!((1..=60).contains(&ttl), "unexpected TTL {ttl}");
    f.pass(20);
    assert!(ok(f.run(|seen| check_chat_quota(chat_id, 10, seen))));
    assert_eq!(f.ttl["rl:chat:-777005"], 40);
}

#[test]
fn ask_cooldown_tells_the_remaining_seconds() {
    let mut f = Fake::new();
    assert_eq!(ok(f.run(|seen| check_ask_cooldown(9, 60, seen))), 0);
    f.pass(25);
    assert_eq!(ok(f.run(|seen| check_ask_cooldown(9, 60, seen))), 35);
    f.pass(35);
    assert_eq!(ok(f.run(|seen| check_ask_cooldown(9, 60, seen))), 0);
}

#[test]
fn counters_count_and_start_anew() {
    let mut f = Fake::new();
    assert_eq!(ok(f.run(|seen| incr_episodic_counter(-5, seen))), 1);
    assert_eq!(ok(f.run(|seen| incr_episodic_counter(-5, seen))), 2);
    ok(f.run(|seen| reset_episodic_counter(-5, seen)));
    assert_eq!(ok(f.run(|seen| incr_episodic_counter(-5, seen))), 1);
    assert_eq!(ok(f.run(|seen| incr_facts_counter(-5, 6, seen))), 1);
    assert_eq!(ok(f.run(|seen| incr_facts_counter(-5, 7, seen))), 1);
    assert_eq!(ok(f.run(|seen| incr_facts_counter(-5, 6, seen))), 2);
    ok(f.run(|seen| reset_facts_counter(-5, 6, seen)));
    assert_eq!(ok(f.run(|seen| incr_facts_counter(-5, 6, seen))), 1);
    assert!(f.values.contains_key("facts:counter:-5:7"));
}

#[test]
fn requeued_candidates_stand_before_newer_ones() {
    let mut f = Fake::new();
    for (i, p) in ["a", "b", "c"].iter().enumerate() {
        let n = ok(f.run(|seen| push_event_candidate(1, p, seen)));
        assert_eq!(n, i as i64 + 1);
    }
    assert_eq!(f.ttl["chat:1:event_candidates"], 86_400);
    let taken = ok(f.run(|seen| pop_event_candidates(1, seen)));
    assert_eq!(taken, vec!["a", "b", "c"]);
    assert_eq!(ok(f.run(|seen| len_event_candidates(1, seen))), 0);
    ok(f.run(|seen| push_event_candidate(1, "d", seen)));
    ok(f.run(|seen| requeue_event_candidates(1, &taken, seen)));
    assert_eq!(ok(f.run(|seen| len_event_candidates(1, seen))), 4);
    let all = ok(f.run(|seen| pop_event_candidates(1, seen)));
    assert_eq!(all, vec!["a", "b", "c", "d"]);
    let none: Vec<String> = Vec::new();
    ok(f.run(|seen| requeue_event_candidates(1, &none, seen)));
    assert!(!f.values.contains_key("chat:1:event_candidates"));
}

#[test]
fn recorded_text_is_new_once_an_hour() {
    let mut f = Fake::new();
    assert!(ok(f.run(|seen| record_unique_event_hash(1, "h", seen))));
    f.pass(3_000);
    assert!(!ok(f.run(|seen| record_unique_event_hash(1, "h", seen))));
    f.pass(3_000);
    assert!(!ok(f.run(|seen| record_unique_event_hash(1, "h", seen))));
    f.pass(3_600);
    assert!(ok(f.run(|seen| record_unique_event_hash(1, "h", seen))));
}

#[test]
fn chat_dna_is_kept_for_its_time() {
    let mut f = Fake::new();
    assert!(ok(f.run(|seen| get_chat_dna(3, seen))).is_none());
    ok(f.run(|seen| set_chat_dna(3, "чат айтишников", 86_400, seen)));
    let got = ok(f.run(|seen| get_chat_dna(3, seen)));
    assert_eq!(got.as_deref(), Some("чат айтишников"));
    f.pass(86_400);
    assert!(ok(f.run(|seen| get_chat_dna(3, seen))).is_none());
}

#[test]
fn a_waiting_user_takes_nothing_of_the_quota() {
    let mut f = Fake::new();
    let cfg = RateLimitConfig { user_cooldown_sec: 10, chat_max_per_min: 2, vision_concurrent: 0 };
    assert!(ok(f.run(|seen| rate_limit_pass(1, Some(11), &cfg, seen))));
    for _ in 0..5 {
        assert!(!ok(f.run(|seen| rate_limit_pass(1, Some(11), &cfg, seen))));
    }
    assert!(matches!(f.values.get("rl:chat:1"), Some(Stored::Text(t)) if t == "1"));
    assert!(ok(f.run(|seen| rate_limit_pass(1, Some(12), &cfg, seen))));
    assert!(!ok(f.run(|seen| rate_limit_pass(1, Some(13), &cfg, seen))));
    assert!(!ok(f.run(|seen| rate_limit_pass(1, None, &cfg, seen))));
    let off = RateLimitConfig { user_cooldown_sec: 0, chat_max_per_min: 0, vision_concurrent: 0 };
    assert!(ok(f.run(|seen| rate_limit_pass(1, Some(13), &off, seen))));
}

#[test]
fn either_limit_can_be_off() {
    let mut f = Fake::new();
    let quota = RateLimitConfig { user_cooldown_sec: 0, chat_max_per_min: 2, vision_concurrent: 0 };
    assert!(ok(f.run(|seen| rate_limit_pass(1, Some(11), &quota, seen))));
    assert!(ok(f.run(|seen| rate_limit_pass(1, None, &quota, seen))));
    assert!(!ok(f.run(|seen| rate_limit_pass(1, Some(11), &quota, seen))));
    assert!(f.values.get("rl:user:11").is_none());
    let wait = RateLimitConfig { user_cooldown_sec: 10, chat_max_per_min: 0, vision_concurrent: 0 };
    assert!(ok(f.run(|seen| rate_limit_pass(2, Some(12), &wait, seen))));
    assert!(!ok(f.run(|seen| rate_limit_pass(2, Some(12), &wait, seen))));
    assert!(ok(f.run(|seen| rate_limit_pass(2, None, &wait, seen))));
    assert!(f.values.get("rl:chat:2").is_none());
}

#[test]
fn health_wants_a_pong() {
    let mut f = Fake::new();
    ok(f.run(|seen| healthcheck(seen)));
    let odd = [Outcome::Replied(vec![Reply::Status("HELLO".to_string())])];
    assert_eq!(message_of(healthcheck(&odd)), "redis error: unexpected PING response: HELLO");
}

#[test]
fn redis_errors_say_what_failed() {
    let gone = [Outcome::NoConnection("refused".to_string())];
    let broken = [Outcome::Failed("oops".to_string())];
    let odd = [Outcome::Replied(vec![Reply::List(Vec::new())])];
    assert_eq!(message_of(check_user_cooldown(1, 5, &gone)), "redis error: get conn: refused");
    assert_eq!(message_of(check_user_cooldown(1, 5, &broken)), "redis error: SET NX EX: oops");
    assert_eq!(message_of(check_chat_quota(1, 5, &broken)), "redis error: INCR: oops");
    assert_eq!(message_of(get_media_desc("ab", &broken)), "redis error: GET media:ab: oops");
    assert_eq!(
        message_of(get_media_desc("ab", &odd)),
        "redis error: GET media:ab: unexpected reply"
    );
    assert_eq!(message_of(put_media_desc("ab", "x", 1, &broken)), "redis error: SET media:ab: oops");
    assert_eq!(message_of(acquire_vision_slot(1, &broken)), "redis error: INCR vision: oops");
}

#[test]
fn commands_go_over_the_wire_word_by_word() {
    let set = Command::Store {
        key: "k".to_string(),
        datum: Datum::Int(1),
        nx: true,
        ex: Some(30),
    };
    assert_eq!(set.words(), vec!["SET", "k", "1", "NX", "EX", "30"]);
    let plain = Command::Store {
        key: "k".to_string(),
        datum: Datum::Text("v w".to_string()),
        nx: false,
        ex: None,
    };
    assert_eq!(plain.words(), vec!["SET", "k", "v w"]);
    let range = Command::Lrange { key: "k".to_string(), start: 0, stop: -1 };
    assert_eq!(range.words(), vec!["LRANGE", "k", "0", "-1"]);
    assert_eq!(Command::Ping.words(), vec!["PING"]);
}
