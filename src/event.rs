//! What a client sends for one occurrence.
use vstd::prelude::*;
use vstd::string::*;

verus! {

/// Where in the client's source the occurrence was raised.
pub struct EventFileLocation {
    pub file: String,
    pub line: u32,
    pub column: Option<u32>,
}

/// One log line that the client kept before the occurrence.
pub struct LogEvent {
    pub timestamp: u64,
    pub level: u8,
    pub message: String,
    pub module: Option<String>,
    pub file: Option<String>,
    pub line: Option<u32>,
}

/// The body of one occurrence.
pub struct EventData {
    pub title: String,
    pub location: Option<EventFileLocation>,
    pub version: Option<String>,
    pub os: String,
    pub arch: String,
    pub thread_id: Option<String>,
    pub thread_name: Option<String>,
    pub backtrace: String,
    pub log_messages: Vec<LogEvent>,
}

/// Relies on `chrono::Utc::now` and `DateTime::timestamp`: the current time
/// in Unix seconds. Nothing is known of its value.
#[verifier::external_body]
fn unix_now() -> (r: i64) {
    chrono::Utc::now().timestamp()
}

impl EventData {
    pub fn title(&self) -> (r: String)
        ensures
            r@ == self.title@,
    {
        self.title.clone()
    }

    /// A sample occurrence, as a client would send it, stamped now.
    pub fn example() -> (r: Self)
        ensures
            r.title@ == "called `Option::unwrap()` on a `None` value"@,
            r.location matches Some(l) && l.file@ == "stc/main.rs"@ && l.line == 45 && l.column == Some(12u32),
            r.version matches Some(v) && v@ == "1.2.3"@,
            r.os@ == "linux"@,
            r.arch@ == "x86_64"@,
            r.log_messages@.len() == 1,
    {
        let now = unix_now();
        let timestamp: u64 = if now < 0 { 0 } else { now as u64 };
        let mut log_messages = Vec::new();
        log_messages.push(
            LogEvent {
                timestamp,
                level: 1,
                message: String::from_str("Error message"),
                module: Some(String::from_str("my_module")),
                file: Some(String::from_str("src/main.rs")),
                line: Some(42),
            },
        );
        EventData {
            title: String::from_str("called `Option::unwrap()` on a `None` value"),
            location: Some(
                EventFileLocation { file: String::from_str("stc/main.rs"), line: 45, column: Some(12) },
            ),
            version: Some(String::from_str("1.2.3")),
            os: String::from_str("linux"),
            arch: String::from_str("x86_64"),
            thread_id: Some(String::from_str("ThreadId(1)")),
            thread_name: Some(String::from_str("main")),
            backtrace: String::from_str(
                r#"stack backtrace:
0: playground::main::h6849180917e9510b (0x55baf1676201)
            at src/main.rs:4
1: std::rt::lang_start::{{closure}}::hb3ceb20351fe39ee (0x55baf1675faf)
            at /rustc/3c235d5600393dfe6c36eeed34042efad8d4f26e/src/libstd/rt.rs:64
2: {{closure}} (0x55baf16be492)
            at src/libstd/rt.rs:49
    do_call<closure,i32>
            at src/libstd/panicking.rs:293
3: __rust_maybe_catch_panic (0x55baf16c00b9)
            at src/libpanic_unwind/lib.rs:87
4: try<i32,closure> (0x55baf16bef9c)
            at src/libstd/panicking.rs:272
    catch_unwind<closure,i32>
            at src/libstd/panic.rs:388
    lang_start_internal
            at src/libstd/rt.rs:48
5: std::rt::lang_start::h2c4217f9057b6ddb (0x55baf1675f88)
            at /rustc/3c235d5600393dfe6c36eeed34042efad8d4f26e/src/libstd/rt.rs:64
6: main (0x55baf16762f9)
7: __libc_start_main (0x7fab051b9b96)
8: _start (0x55baf1675e59)
9: <unknown> (0x0)"#,
            ),
            log_messages,
        }
    }
}

} // verus!
