//! The settings, with their defaults.
//!
//! Every field has a built-in default. Precedence, highest wins: environment
//! variables, the settings file, the defaults. What is missing, unparsable or
//! out of range is skipped in favor of whatever precedes it in that order.

use crate::json;
use crate::json::{Entry, Json, Value};
use crate::text;
use vstd::prelude::*;

verus! {

/// Which app registration to sign in as, how many days of history are fetched
/// at first, how often the engine looks for news, whether the message list is
/// grouped into conversations, what a new message ends with, whether a reminder
/// is also raised as a notification, and whether the folder tree has had its
/// first expansion.
#[derive(Debug, PartialEq, Eq)]
pub struct Config {
    pub client_id: String,
    pub backfill_days: i64,
    pub refresh_secs: u64,
    pub threaded: bool,
    pub signature: String,
    pub reminders_notify: bool,
    pub folder_tree_initialized: bool,
}

/// The environment variables that overlay the settings, where they are set.
#[derive(Debug, PartialEq, Eq)]
pub struct Env {
    pub client_id: Option<String>,
    pub backfill_days: Option<String>,
    pub refresh_secs: Option<String>,
    pub threaded: Option<String>,
}

/// What a configuration says.
pub struct Settings {
    pub client_id: Seq<char>,
    pub backfill_days: int,
    pub refresh_secs: int,
    pub threaded: bool,
    pub signature: Seq<char>,
    pub reminders_notify: bool,
    pub folder_tree_initialized: bool,
}

impl View for Config {
    type V = Settings;

    open spec fn view(&self) -> Settings {
        Settings {
            client_id: self.client_id@,
            backfill_days: self.backfill_days as int,
            refresh_secs: self.refresh_secs as int,
            threaded: self.threaded,
            signature: self.signature@,
            reminders_notify: self.reminders_notify,
            folder_tree_initialized: self.folder_tree_initialized,
        }
    }
}

pub open spec fn defaults() -> Settings {
    Settings {
        client_id: "14d82eec-204b-4c2f-b7e8-296a70dab67e"@,
        backfill_days: 180,
        refresh_secs: 60,
        threaded: true,
        signature: Seq::empty(),
        reminders_notify: false,
        folder_tree_initialized: false,
    }
}

/// At least one day.
pub open spec fn sane_days(n: int) -> bool {
    1 <= n <= i64::MAX
}

/// The settings `s`, overlaid with what the file says.
pub open spec fn with_file(s: Settings, file: Option<Value>) -> Settings {
    match file {
        None => s,
        Some(v) => Settings {
            client_id: match v.text("client_id"@) {
                Some(t) => t,
                None => s.client_id,
            },
            backfill_days: match v.number("backfill_days"@) {
                Some(n) => if sane_days(n) {
                    n
                } else {
                    s.backfill_days
                },
                None => s.backfill_days,
            },
            refresh_secs: match v.number("refresh_secs"@) {
                Some(n) => if 0 < n <= i64::MAX {
                    n
                } else {
                    s.refresh_secs
                },
                None => s.refresh_secs,
            },
            threaded: or(v.flag("threaded"@), s.threaded),
            signature: or(v.text("signature"@), s.signature),
            reminders_notify: or(v.flag("reminders_notify"@), s.reminders_notify),
            folder_tree_initialized: or(
                v.flag("folder_tree_initialized"@),
                s.folder_tree_initialized,
            ),
        },
    }
}

/// What a variable says of a truth value.
pub open spec fn truth_of(t: Seq<char>) -> Option<bool> {
    let w = text::ascii_lowercase(text::trim(t));
    if w == "true"@ || text::trim(t) == "1"@ {
        Some(true)
    } else if w == "false"@ || text::trim(t) == "0"@ {
        Some(false)
    } else {
        None
    }
}

pub open spec fn days_of(v: Option<String>) -> Option<int> {
    match v {
        Some(t) => match text::parse_signed(t@) {
            Some(n) => if sane_days(n) {
                Some(n)
            } else {
                None
            },
            None => None,
        },
        None => None,
    }
}

pub open spec fn secs_of(v: Option<String>) -> Option<int> {
    match v {
        Some(t) => match text::parse_unsigned(t@, u64::MAX as int) {
            Some(n) => if n > 0 {
                Some(n)
            } else {
                None
            },
            None => None,
        },
        None => None,
    }
}

pub open spec fn or<A>(x: Option<A>, other: A) -> A {
    match x {
        Some(y) => y,
        None => other,
    }
}

/// The settings `s`, overlaid with what the environment says.
pub open spec fn with_env(s: Settings, e: Env) -> Settings {
    Settings {
        client_id: match e.client_id {
            Some(t) => if t@.len() > 0 {
                t@
            } else {
                s.client_id
            },
            None => s.client_id,
        },
        backfill_days: or(days_of(e.backfill_days), s.backfill_days),
        refresh_secs: or(secs_of(e.refresh_secs), s.refresh_secs),
        threaded: match e.threaded {
            Some(t) => or(truth_of(t@), s.threaded),
            None => s.threaded,
        },
        ..s
    }
}

impl Default for Config {
    fn default() -> (r: Config)
        ensures
            r@ == defaults(),
    {
        Config {
            client_id: "14d82eec-204b-4c2f-b7e8-296a70dab67e".to_string(),
            backfill_days: 180,
            refresh_secs: 60,
            threaded: true,
            signature: String::new(),
            reminders_notify: false,
            folder_tree_initialized: false,
        }
    }
}

fn same_word(v: &[char], word: &str) -> (r: bool)
    ensures
        r == (v@ == word@),
{
    let w = text::chars_of(word);
    text::same_chars(v, w.as_slice())
}

fn truth(t: &str) -> (r: Option<bool>)
    ensures
        r == truth_of(t@),
{
    let v = text::trim_str(t);
    let lower = text::lowercase(v.as_slice());
    if same_word(lower.as_slice(), "true") || same_word(v.as_slice(), "1") {
        Some(true)
    } else if same_word(lower.as_slice(), "false") || same_word(v.as_slice(), "0") {
        Some(false)
    } else {
        None
    }
}

/// A backfill window only makes sense as at least one day.
pub fn is_sane_backfill_days(n: i64) -> (r: bool)
    ensures
        r == sane_days(n as int),
{
    n >= 1
}

/// An interval of zero is no faster poll.
pub fn is_sane_refresh_secs(n: u64) -> (r: bool)
    ensures
        r == (n > 0),
{
    n > 0
}

impl Config {
    /// Overlays what the settings file says; `None` where there is none, or it
    /// could not be parsed.
    pub fn overlay_json(&mut self, file: &Option<Json>)
        ensures
            final(self)@ == with_file(old(self)@, said(*file)),
    {
        let value = match file {
            Some(v) => v,
            None => {
                return;
            },
        };
        if let Some(s) = value.get_str("client_id") {
            self.client_id = s.clone();
        }
        if let Some(n) = value.get_num("backfill_days") {
            if 1 <= n && n <= i64::MAX as i128 {
                self.backfill_days = n as i64;
            }
        }
        if let Some(n) = value.get_num("refresh_secs") {
            if 0 < n && n <= i64::MAX as i128 {
                self.refresh_secs = n as u64;
            }
        }
        if let Some(b) = value.get_bool("threaded") {
            self.threaded = b;
        }
        if let Some(s) = value.get_str("signature") {
            self.signature = s.clone();
        }
        if let Some(b) = value.get_bool("reminders_notify") {
            self.reminders_notify = b;
        }
        if let Some(b) = value.get_bool("folder_tree_initialized") {
            self.folder_tree_initialized = b;
        }
    }

    /// Overlays what the environment says.
    pub fn overlay_env(&mut self, env: &Env)
        ensures
            final(self)@ == with_env(old(self)@, *env),
    {
        if let Some(t) = &env.client_id {
            if text::chars_of(t.as_str()).len() > 0 {
                self.client_id = t.clone();
            }
        }
        if let Some(t) = &env.backfill_days {
            let v = text::chars_of(t.as_str());
            if let Some(n) = text::read_i64(v.as_slice()) {
                if is_sane_backfill_days(n) {
                    self.backfill_days = n;
                }
            }
        }
        if let Some(t) = &env.refresh_secs {
            let v = text::chars_of(t.as_str());
            if let Some(n) = text::read_u64(v.as_slice()) {
                if is_sane_refresh_secs(n) {
                    self.refresh_secs = n;
                }
            }
        }
        if let Some(t) = &env.threaded {
            if let Some(b) = truth(t.as_str()) {
                self.threaded = b;
            }
        }
    }

    /// The settings in force: the defaults, overlaid with the file, overlaid
    /// with the environment.
    pub fn load_from(file: &Option<Json>, env: &Env) -> (r: Config)
        ensures
            r@ == with_env(with_file(defaults(), said(*file)), *env),
    {
        let mut cfg = Config::default();
        cfg.overlay_json(file);
        cfg.overlay_env(env);
        cfg
    }
}

/// The entries without those of this key.
pub open spec fn without(v: Seq<Entry>, key: Seq<char>) -> Seq<Entry>
    decreases v.len(),
{
    if v.len() == 0 {
        Seq::empty()
    } else if v.last().key == key {
        without(v.drop_last(), key)
    } else {
        without(v.drop_last(), key).push(v.last())
    }
}

/// What a file says, if there is one.
pub open spec fn said(file: Option<Json>) -> Option<Value> {
    match file {
        Some(j) => Some(j@),
        None => None,
    }
}

/// The entries of a settings file; none where it is no object.
pub open spec fn entries_of(file: Option<Value>) -> Seq<Entry> {
    match file {
        Some(Value::Obj(e)) => e,
        _ => Seq::empty(),
    }
}

/// What the settings file says once a flag is written to it: what it said before,
/// but for the flag.
pub open spec fn flag_written(existing: Option<Value>, key: Seq<char>, value: bool) -> Value {
    Value::Obj(without(entries_of(existing), key).push(json::entry(key, Value::Bool(value))))
}

fn persist_flag(existing: Option<Json>, key: &str, value: bool) -> (r: Json)
    ensures
        r@ == flag_written(said(existing), key@, value),
{
    let mut out: Vec<(String, Json)> = json::no_entries();
    let ghost before = entries_of(said(existing));
    assert(json::entries(out@) =~= without(before.take(0), key@));
    if let Some(Json::Obj(v)) = existing {
        let ghost all = v@;
        proof {
            json::lemma_object(v);
        }
        let mut rest = v;
        let ghost mut k: int = 0;
        assert(rest@ =~= all.skip(0));
        while rest.len() > 0
            invariant
                0 <= k <= all.len(),
                rest@ == all.skip(k),
                before == json::entries(all),
                json::entries(out@) == without(before.take(k), key@),
            decreases rest@.len(),
        {
            let e = rest.remove(0);
            proof {
                assert(e == all[k]);
                assert(rest@ =~= all.skip(k + 1));
                assert(before.take(k + 1).drop_last() =~= before.take(k));
                assert(before.take(k + 1).last() == before[k]);
                k = k + 1;
            }
            if !text::same(e.0.as_str(), key) {
                let ghost so_far = out@;
                out.push(e);
                assert(json::entries(out@) =~= json::entries(so_far).push(json::entry(e.0@, e.1@)));
            }
        }
        assert(before.take(k) =~= before);
    } else {
        assert(before.take(0) =~= before);
    }
    json::put(&mut out, key, Json::Bool(value));
    Json::object(out)
}

/// What to write to the settings file to keep the choice between conversations
/// and single messages, given what it says now.
pub fn persist_threaded(existing: Option<Json>, value: bool) -> (r: Json)
    ensures
        r@ == flag_written(said(existing), "threaded"@, value),
{
    persist_flag(existing, "threaded", value)
}

/// What to write to the settings file to keep that the folder tree has had its
/// first expansion, given what it says now.
pub fn persist_folder_tree_initialized(existing: Option<Json>, value: bool) -> (r: Json)
    ensures
        r@ == flag_written(said(existing), "folder_tree_initialized"@, value),
{
    persist_flag(existing, "folder_tree_initialized", value)
}

// ---------------------------------------------------------------------------
// Laws
// ---------------------------------------------------------------------------

/// What the environment sets, it sets whatever the file says; what it does not
/// set, the file decides, and else the defaults.
pub proof fn the_environment_wins(file: Option<Value>, e: Env)
    ensures
        with_env(with_file(defaults(), file), e).backfill_days == (match days_of(e.backfill_days) {
            Some(n) => n,
            None => with_file(defaults(), file).backfill_days,
        }),
        with_env(with_file(defaults(), file), e).refresh_secs == (match secs_of(e.refresh_secs) {
            Some(n) => n,
            None => with_file(defaults(), file).refresh_secs,
        }),
        file is None ==> with_file(defaults(), file) == defaults(),
{
}

/// Whatever the file and the environment say, the window is at least a day and
/// the interval at least a second.
pub proof fn settings_are_sane(file: Option<Value>, e: Env)
    ensures
        with_env(with_file(defaults(), file), e).backfill_days >= 1,
        with_env(with_file(defaults(), file), e).refresh_secs > 0,
{
}

proof fn lemma_without(v: Seq<Entry>, key: Seq<char>, other: Seq<char>)
    ensures
        other != key ==> Value::Obj(without(v, key)).get(other) == Value::Obj(v).get(other),
        json::entry_at(without(v, key), key) == without(v, key).len(),
    decreases v.len(),
{
    if v.len() > 0 {
        let init = v.drop_last();
        lemma_without(init, key, other);
        assert(v =~= init.push(v.last()));
        json::lemma_entry_push(init, v.last(), other);
        let w = without(init, key);
        json::lemma_entry_push(w, v.last(), other);
        json::lemma_entry_push(w, v.last(), key);
    } else {
        assert(without(v, key) =~= v);
    }
}

proof fn lemma_written(v: Seq<Entry>, flag: Seq<char>, value: bool, key: Seq<char>)
    ensures
        key != flag ==> flag_written(Some(Value::Obj(v)), flag, value).get(key) == Value::Obj(
            v,
        ).get(key),
        flag_written(Some(Value::Obj(v)), flag, value).get(flag) == Some(Value::Bool(value)),
{
    let w = without(v, flag);
    let e = json::entry(flag, Value::Bool(value));
    lemma_without(v, flag, key);
    json::lemma_entry_push(w, e, key);
    json::lemma_entry_push(w, e, flag);
}

proof fn lemma_keys_differ()
    ensures
        "client_id"@.len() == 9,
        "backfill_days"@.len() == 13,
        "refresh_secs"@.len() == 12,
        "threaded"@.len() == 8,
        "signature"@.len() == 9,
        "reminders_notify"@.len() == 16,
        "folder_tree_initialized"@.len() == 23,
{
    reveal_strlit("client_id");
    reveal_strlit("backfill_days");
    reveal_strlit("refresh_secs");
    reveal_strlit("threaded");
    reveal_strlit("signature");
    reveal_strlit("reminders_notify");
    reveal_strlit("folder_tree_initialized");
}

proof fn lemma_others_kept(v: Seq<Entry>, flag: Seq<char>, value: bool)
    ensures
        ({
            let w = flag_written(Some(Value::Obj(v)), flag, value);
            let o = Value::Obj(v);
            &&& "client_id"@ != flag ==> w.get("client_id"@) == o.get("client_id"@)
            &&& "backfill_days"@ != flag ==> w.get("backfill_days"@) == o.get("backfill_days"@)
            &&& "refresh_secs"@ != flag ==> w.get("refresh_secs"@) == o.get("refresh_secs"@)
            &&& "threaded"@ != flag ==> w.get("threaded"@) == o.get("threaded"@)
            &&& "signature"@ != flag ==> w.get("signature"@) == o.get("signature"@)
            &&& "reminders_notify"@ != flag ==> w.get("reminders_notify"@) == o.get(
                "reminders_notify"@,
            )
            &&& "folder_tree_initialized"@ != flag ==> w.get("folder_tree_initialized"@) == o.get(
                "folder_tree_initialized"@,
            )
            &&& w.get(flag) == Some(Value::Bool(value))
        }),
{
    lemma_written(v, flag, value, "client_id"@);
    lemma_written(v, flag, value, "backfill_days"@);
    lemma_written(v, flag, value, "refresh_secs"@);
    lemma_written(v, flag, value, "threaded"@);
    lemma_written(v, flag, value, "signature"@);
    lemma_written(v, flag, value, "reminders_notify"@);
    lemma_written(v, flag, value, "folder_tree_initialized"@);
}

/// The choice that was written is the one that is read, and every other entry of
/// the file reads as before.
pub proof fn the_written_choice_is_read(existing: Value, value: bool, key: Seq<char>)
    requires
        existing is Obj,
        key != "threaded"@,
    ensures
        flag_written(Some(existing), "threaded"@, value).get(key) == existing.get(key),
        with_file(defaults(), Some(flag_written(Some(existing), "threaded"@, value))) == (Settings {
            threaded: value,
            ..with_file(defaults(), Some(existing))
        }),
{
    let v = existing->Obj_0;
    lemma_keys_differ();
    lemma_written(v, "threaded"@, value, key);
    lemma_others_kept(v, "threaded"@, value);
}

/// Once it is written that the folder tree has had its first expansion, that is
/// read, and every other entry of the file reads as before.
pub proof fn the_first_expansion_is_remembered(existing: Value, key: Seq<char>)
    requires
        existing is Obj,
        key != "folder_tree_initialized"@,
    ensures
        flag_written(Some(existing), "folder_tree_initialized"@, true).get(key) == existing.get(key),
        with_file(
            defaults(),
            Some(flag_written(Some(existing), "folder_tree_initialized"@, true)),
        ) == (Settings { folder_tree_initialized: true, ..with_file(defaults(), Some(existing)) }),
{
    let v = existing->Obj_0;
    lemma_keys_differ();
    lemma_written(v, "folder_tree_initialized"@, true, key);
    lemma_others_kept(v, "folder_tree_initialized"@, true);
}

}
