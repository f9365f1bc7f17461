//! The server's metrics and the tiny HTTP responder in front of them.

use crate::plasma::server::{Counter, MetricsUpdate};
use crate::util::bytes::copy_bytes;
use crate::util::prom;
use crate::util::prom::{clamp, count, Exposition, MetricsError};
use crate::util::text;
use crate::util::text::{push_decimal, string_from_utf8};
use vstd::prelude::*;
use vstd::utf8;

verus! {

/// Most bytes of a request that are read.
pub const MAX_REQUEST_BYTES: usize = 1024;

/// `GET /metrics` in ASCII.
pub open spec fn metrics_request_line() -> Seq<u8> {
    seq![71u8, 69u8, 84u8, 32u8, 47u8, 109u8, 101u8, 116u8, 114u8, 105u8, 99u8, 115u8]
}

/// Whether the empty line that ends a request's head is among the bytes.
pub open spec fn has_blank_line(b: Seq<u8>) -> bool {
    exists|i: int| #[trigger] blank_line_at(b, i)
}

/// Whether the empty line begins at position `i`.
pub open spec fn blank_line_at(b: Seq<u8>, i: int) -> bool {
    0 <= i && i + 4 <= b.len() && b[i] == 13 && b[i + 1] == 10 && b[i + 2] == 13 && b[i + 3] == 10
}

/// Whether enough of a request was read: the head is complete, the other side has closed
/// the connection, or the request is too long. `last_read` is the number of bytes that
/// the last attempt gave; nothing before the first attempt.
pub fn request_complete(received: &[u8], last_read: Option<usize>) -> (done: bool)
    ensures
        done == (received@.len() >= MAX_REQUEST_BYTES || last_read == Some(0usize) || (
        last_read is Some && has_blank_line(received@))),
{
    if received.len() >= MAX_REQUEST_BYTES {
        return true;
    }
    match last_read {
        None => {
            return false;
        },
        Some(n) => {
            if n == 0 {
                return true;
            }
        },
    }
    let mut i: usize = 0;
    while i < received.len()
        invariant
            i <= received@.len(),
            last_read is Some,
            received@.len() < MAX_REQUEST_BYTES,
            forall|j: int| 0 <= j < i ==> !#[trigger] blank_line_at(received@, j),
        decreases received@.len() - i,
    {
        if i + 4 <= received.len() && received[i] == 13 && received[i + 1] == 10 && received[i + 2]
            == 13 && received[i + 3] == 10 {
            assert(blank_line_at(received@, i as int));
            return true;
        }
        i += 1;
    }
    false
}

/// Whether a request asks for the metrics: its head is UTF-8 text that begins with
/// `GET /metrics`.
pub open spec fn asks_for_metrics(head: Seq<u8>) -> bool {
    utf8::valid_utf8(head) && head.len() >= 12 && head.take(12) == metrics_request_line()
}

/// Whether a request asks for the metrics.
pub fn wants_metrics(head: &[u8]) -> (b: bool)
    ensures
        b == asks_for_metrics(head@),
{
    if string_from_utf8(copy_bytes(head)).is_err() || head.len() < 12 {
        return false;
    }
    let b = head[0] == 71 && head[1] == 69 && head[2] == 84 && head[3] == 32 && head[4] == 47
        && head[5] == 109 && head[6] == 101 && head[7] == 116 && head[8] == 114 && head[9] == 105
        && head[10] == 99 && head[11] == 115;
    proof {
        if b {
            assert(head@.take(12) =~= metrics_request_line());
        } else {
            let w = metrics_request_line();
            assert(forall|i: int| 0 <= i < 12 ==> head@.take(12)[i] == head@[i]);
            if head@.take(12) == w {
                assert(head@[0] == w[0] && head@[1] == w[1] && head@[2] == w[2] && head@[3] == w[3]);
                assert(head@[4] == w[4] && head@[5] == w[5] && head@[6] == w[6] && head@[7] == w[7]);
                assert(head@[8] == w[8] && head@[9] == w[9] && head@[10] == w[10] && head@[11]
                    == w[11]);
            }
        }
    }
    b
}

/// A complete HTTP response.
pub open spec fn http_text(status: Seq<char>, content_type: Seq<char>, body: Seq<char>) -> Seq<char> {
    "HTTP/1.0 "@ + status + "\r\nContent-Type: "@ + content_type + "\r\nContent-Length: "@
        + text::decimal_text(utf8::encode_utf8(body).len()) + "\r\nConnection: close\r\n\r\n"@ + body
}

fn http_response(status: &str, content_type: &str, body: &str) -> (r: String)
    ensures
        r@ == http_text(status@, content_type@, body@),
{
    let mut r = "HTTP/1.0 ".to_owned();
    r.append(status);
    r.append("\r\nContent-Type: ");
    r.append(content_type);
    r.append("\r\nContent-Length: ");
    push_decimal(&mut r, body.as_bytes().len() as u64);
    r.append("\r\nConnection: close\r\n\r\n");
    r.append(body);
    r
}

/// The response to a request: the encoded metrics, or why there are none. `encoded` is
/// nothing where the metrics could not be encoded.
pub fn serve_one(head: &[u8], encoded: Option<&str>) -> (r: String)
    ensures
        r@ == (if !asks_for_metrics(head@) {
            http_text("404 Not Found"@, "text/plain"@, "not found"@)
        } else {
            match encoded {
                Some(body) => http_text("200 OK"@, "text/plain; version=0.0.4"@, body@),
                None => http_text("500 Internal Server Error"@, "text/plain"@, "encode failed"@),
            }
        }),
{
    if !wants_metrics(head) {
        return http_response("404 Not Found", "text/plain", "not found");
    }
    match encoded {
        Some(body) => http_response("200 OK", "text/plain; version=0.0.4", body),
        None => http_response("500 Internal Server Error", "text/plain", "encode failed"),
    }
}

/// The server's metrics.
#[derive(Debug, Clone, Copy, PartialEq, Eq, Structural)]
pub struct Metrics {
    /// Bytes of the arena.
    pub arena_bytes_total: i64,
    /// Bytes handed out.
    pub arena_bytes_used: i64,
    /// Objects.
    pub objects_total: i64,
    /// Requests for new objects.
    pub create_total: u64,
    /// Requests for the place of an object.
    pub get_total: u64,
    /// Requests to remove an object.
    pub delete_total: u64,
}

/// Every metric is in order.
proof fn lemma_in_order()
    ensures
        prom::in_order(
            "rayd_plasma_arena_bytes_total"@,
            "Total bytes of the plasma server's mmap'd arena."@,
            Seq::empty(),
        ),
        prom::in_order(
            "rayd_plasma_arena_bytes_used"@,
            "Bytes currently allocated to objects (sealed or unsealed)."@,
            Seq::empty(),
        ),
        prom::in_order(
            "rayd_plasma_create_total"@,
            "Cumulative count of Create RPCs served."@,
            Seq::empty(),
        ),
        prom::in_order(
            "rayd_plasma_delete_total"@,
            "Cumulative count of Delete RPCs served."@,
            Seq::empty(),
        ),
        prom::in_order(
            "rayd_plasma_get_total"@,
            "Cumulative count of Get RPCs served."@,
            Seq::empty(),
        ),
        prom::in_order(
            "rayd_plasma_objects_total"@,
            "Number of objects currently in the plasma object table."@,
            Seq::empty(),
        ),
{
    reveal_with_fuel(prom::goes_on_from, 50);
    reveal_strlit("rayd_plasma_arena_bytes_total");
    reveal_strlit("Total bytes of the plasma server's mmap'd arena.");
    reveal_strlit("rayd_plasma_arena_bytes_used");
    reveal_strlit("Bytes currently allocated to objects (sealed or unsealed).");
    reveal_strlit("rayd_plasma_create_total");
    reveal_strlit("Cumulative count of Create RPCs served.");
    reveal_strlit("rayd_plasma_delete_total");
    reveal_strlit("Cumulative count of Delete RPCs served.");
    reveal_strlit("rayd_plasma_get_total");
    reveal_strlit("Cumulative count of Get RPCs served.");
    reveal_strlit("rayd_plasma_objects_total");
    reveal_strlit("Number of objects currently in the plasma object table.");
}

impl Metrics {
    /// The metrics of a server that has served nothing, with an arena of so many bytes.
    pub fn new(capacity: u64) -> (r: Self)
        ensures
            r == (Metrics {
                arena_bytes_total: prom::clamped(capacity as nat),
                arena_bytes_used: 0,
                objects_total: 0,
                create_total: 0,
                get_total: 0,
                delete_total: 0,
            }),
    {
        Metrics {
            arena_bytes_total: clamp(capacity),
            arena_bytes_used: 0,
            objects_total: 0,
            create_total: 0,
            get_total: 0,
            delete_total: 0,
        }
    }

    /// The metrics after a request.
    pub open spec fn updated(self, u: MetricsUpdate) -> Metrics {
        Metrics {
            arena_bytes_total: self.arena_bytes_total,
            arena_bytes_used: match u.arena_used {
                Some(n) => n,
                None => self.arena_bytes_used,
            },
            objects_total: match u.objects {
                Some(n) => n,
                None => self.objects_total,
            },
            create_total: if u.counter == Some(Counter::Create) {
                prom::counted(self.create_total, 1)
            } else {
                self.create_total
            },
            get_total: if u.counter == Some(Counter::Get) {
                prom::counted(self.get_total, 1)
            } else {
                self.get_total
            },
            delete_total: if u.counter == Some(Counter::Delete) {
                prom::counted(self.delete_total, 1)
            } else {
                self.delete_total
            },
        }
    }

    /// Takes in what a request changes.
    pub fn update(&mut self, u: MetricsUpdate)
        ensures
            *final(self) == old(self).updated(u),
    {
        match u.arena_used {
            Some(n) => {
                self.arena_bytes_used = n;
            },
            None => {},
        }
        match u.objects {
            Some(n) => {
                self.objects_total = n;
            },
            None => {},
        }
        match u.counter {
            Some(Counter::Create) => {
                self.create_total = count(self.create_total, 1);
            },
            Some(Counter::Get) => {
                self.get_total = count(self.get_total, 1);
            },
            Some(Counter::Delete) => {
                self.delete_total = count(self.delete_total, 1);
            },
            None => {},
        }
    }

    /// The text that is shown: the metrics in the order of their names.
    pub open spec fn shown(self) -> Seq<char> {
        Seq::<char>::empty() + prom::part(
            "rayd_plasma_arena_bytes_total"@,
            prom::plain(
                true,
                "Total bytes of the plasma server's mmap'd arena."@,
                self.arena_bytes_total as int,
            ),
        ) + prom::part(
            "rayd_plasma_arena_bytes_used"@,
            prom::plain(
                true,
                "Bytes currently allocated to objects (sealed or unsealed)."@,
                self.arena_bytes_used as int,
            ),
        ) + prom::part(
            "rayd_plasma_create_total"@,
            prom::plain(
                false,
                "Cumulative count of Create RPCs served."@,
                self.create_total as int,
            ),
        ) + prom::part(
            "rayd_plasma_delete_total"@,
            prom::plain(
                false,
                "Cumulative count of Delete RPCs served."@,
                self.delete_total as int,
            ),
        ) + prom::part(
            "rayd_plasma_get_total"@,
            prom::plain(false, "Cumulative count of Get RPCs served."@, self.get_total as int),
        ) + prom::part(
            "rayd_plasma_objects_total"@,
            prom::plain(
                true,
                "Number of objects currently in the plasma object table."@,
                self.objects_total as int,
            ),
        )
    }

    /// The metrics as a text.
    pub fn encode_text(&self) -> (r: Result<String, MetricsError>)
        ensures
            r matches Ok(t) && t@ == self.shown(),
    {
        proof {
            lemma_in_order();
        }
        let mut e = Exposition::new();
        e.gauge(
            "rayd_plasma_arena_bytes_total",
            "Total bytes of the plasma server's mmap'd arena.",
            self.arena_bytes_total,
        );
        e.gauge(
            "rayd_plasma_arena_bytes_used",
            "Bytes currently allocated to objects (sealed or unsealed).",
            self.arena_bytes_used,
        );
        e.counter(
            "rayd_plasma_create_total",
            "Cumulative count of Create RPCs served.",
            self.create_total,
        );
        e.counter(
            "rayd_plasma_delete_total",
            "Cumulative count of Delete RPCs served.",
            self.delete_total,
        );
        e.counter(
            "rayd_plasma_get_total",
            "Cumulative count of Get RPCs served.",
            self.get_total,
        );
        e.gauge(
            "rayd_plasma_objects_total",
            "Number of objects currently in the plasma object table.",
            self.objects_total,
        );
        e.text()
    }
}

/// Every metric is shown under its own name, with its own help text and value.
pub proof fn law_every_metric_is_shown(m: Metrics)
    ensures
        prom::shows_part(
            m.shown(),
            "rayd_plasma_arena_bytes_total"@,
            prom::plain(
                true,
                "Total bytes of the plasma server's mmap'd arena."@,
                m.arena_bytes_total as int,
            ),
        ),
        prom::shows_part(
            m.shown(),
            "rayd_plasma_arena_bytes_used"@,
            prom::plain(
                true,
                "Bytes currently allocated to objects (sealed or unsealed)."@,
                m.arena_bytes_used as int,
            ),
        ),
        prom::shows_part(
            m.shown(),
            "rayd_plasma_create_total"@,
            prom::plain(
                false,
                "Cumulative count of Create RPCs served."@,
                m.create_total as int,
            ),
        ),
        prom::shows_part(
            m.shown(),
            "rayd_plasma_delete_total"@,
            prom::plain(
                false,
                "Cumulative count of Delete RPCs served."@,
                m.delete_total as int,
            ),
        ),
        prom::shows_part(
            m.shown(),
            "rayd_plasma_get_total"@,
            prom::plain(
                false,
                "Cumulative count of Get RPCs served."@,
                m.get_total as int,
            ),
        ),
        prom::shows_part(
            m.shown(),
            "rayd_plasma_objects_total"@,
            prom::plain(
                true,
                "Number of objects currently in the plasma object table."@,
                m.objects_total as int,
            ),
        ),
{
    let t0 = Seq::<char>::empty();
    let m1 = prom::plain(
        true,
        "Total bytes of the plasma server's mmap'd arena."@,
        m.arena_bytes_total as int,
    );
    let p1 = prom::part("rayd_plasma_arena_bytes_total"@, m1);
    let t1 = t0 + p1;
    prom::lemma_shows_last(t0, "rayd_plasma_arena_bytes_total"@, m1);
    let m2 = prom::plain(
        true,
        "Bytes currently allocated to objects (sealed or unsealed)."@,
        m.arena_bytes_used as int,
    );
    let p2 = prom::part("rayd_plasma_arena_bytes_used"@, m2);
    let t2 = t1 + p2;
    prom::lemma_shows_last(t1, "rayd_plasma_arena_bytes_used"@, m2);
    prom::lemma_shows_on(t1, p2, "rayd_plasma_arena_bytes_total"@, m1);
    let m3 = prom::plain(
        false,
        "Cumulative count of Create RPCs served."@,
        m.create_total as int,
    );
    let p3 = prom::part("rayd_plasma_create_total"@, m3);
    let t3 = t2 + p3;
    prom::lemma_shows_last(t2, "rayd_plasma_create_total"@, m3);
    prom::lemma_shows_on(t2, p3, "rayd_plasma_arena_bytes_total"@, m1);
    prom::lemma_shows_on(t2, p3, "rayd_plasma_arena_bytes_used"@, m2);
    let m4 = prom::plain(
        false,
        "Cumulative count of Delete RPCs served."@,
        m.delete_total as int,
    );
    let p4 = prom::part("rayd_plasma_delete_total"@, m4);
    let t4 = t3 + p4;
    prom::lemma_shows_last(t3, "rayd_plasma_delete_total"@, m4);
    prom::lemma_shows_on(t3, p4, "rayd_plasma_arena_bytes_total"@, m1);
    prom::lemma_shows_on(t3, p4, "rayd_plasma_arena_bytes_used"@, m2);
    prom::lemma_shows_on(t3, p4, "rayd_plasma_create_total"@, m3);
    let m5 = prom::plain(
        false,
        "Cumulative count of Get RPCs served."@,
        m.get_total as int,
    );
    let p5 = prom::part("rayd_plasma_get_total"@, m5);
    let t5 = t4 + p5;
    prom::lemma_shows_last(t4, "rayd_plasma_get_total"@, m5);
    prom::lemma_shows_on(t4, p5, "rayd_plasma_arena_bytes_total"@, m1);
    prom::lemma_shows_on(t4, p5, "rayd_plasma_arena_bytes_used"@, m2);
    prom::lemma_shows_on(t4, p5, "rayd_plasma_create_total"@, m3);
    prom::lemma_shows_on(t4, p5, "rayd_plasma_delete_total"@, m4);
    let m6 = prom::plain(
        true,
        "Number of objects currently in the plasma object table."@,
        m.objects_total as int,
    );
    let p6 = prom::part("rayd_plasma_objects_total"@, m6);
    let t6 = t5 + p6;
    prom::lemma_shows_last(t5, "rayd_plasma_objects_total"@, m6);
    prom::lemma_shows_on(t5, p6, "rayd_plasma_arena_bytes_total"@, m1);
    prom::lemma_shows_on(t5, p6, "rayd_plasma_arena_bytes_used"@, m2);
    prom::lemma_shows_on(t5, p6, "rayd_plasma_create_total"@, m3);
    prom::lemma_shows_on(t5, p6, "rayd_plasma_delete_total"@, m4);
    prom::lemma_shows_on(t5, p6, "rayd_plasma_get_total"@, m5);
}

/// A request adds one to its own counter, and the numbers of objects and bytes are replaced
/// where they are told; nothing else changes.
pub proof fn law_requests_are_counted(m: Metrics, u: MetricsUpdate)
    requires
        m.create_total < u64::MAX,
        m.get_total < u64::MAX,
        m.delete_total < u64::MAX,
    ensures
        ({
            let n = m.updated(u);
            &&& n.create_total == m.create_total + (if u.counter == Some(Counter::Create) {
                1int
            } else {
                0int
            })
            &&& n.get_total == m.get_total + (if u.counter == Some(Counter::Get) {
                1int
            } else {
                0int
            })
            &&& n.delete_total == m.delete_total + (if u.counter == Some(Counter::Delete) {
                1int
            } else {
                0int
            })
            &&& u.objects matches Some(k) ==> n.objects_total == k
            &&& u.objects is None ==> n.objects_total == m.objects_total
            &&& u.arena_used matches Some(k) ==> n.arena_bytes_used == k
            &&& u.arena_used is None ==> n.arena_bytes_used == m.arena_bytes_used
            &&& n.arena_bytes_total == m.arena_bytes_total
        }),
{
}

/// A request asks for the metrics exactly where it is text that begins with `GET /metrics`.
pub proof fn law_requests_for_metrics(head: Seq<u8>)
    ensures
        asks_for_metrics(head) <==> utf8::valid_utf8(head) && utf8::encode_utf8(
            "GET /metrics"@,
        ).is_prefix_of(head),
{
    let s = "GET /metrics"@;
    reveal_strlit("GET /metrics");
    assert(utf8::is_ascii_chars(s));
    utf8::is_ascii_chars_encode_utf8(s);
    assert(utf8::encode_utf8(s) =~= metrics_request_line());
    if head.len() >= 12 {
        assert(head.take(12) =~= head.subrange(0, 12));
    }
}

/// The head of a request is complete where two line ends follow each other.
pub proof fn law_blank_line(a: Seq<u8>, b: Seq<u8>)
    ensures
        has_blank_line(a + seq![13u8, 10u8, 13u8, 10u8] + b),
        a.len() < 4 ==> !has_blank_line(a),
{
    let s = a + seq![13u8, 10u8, 13u8, 10u8] + b;
    assert(blank_line_at(s, a.len() as int));
}

/// A response ends with its body, behind an empty line, and tells how many bytes it has.
pub proof fn law_response_parts(status: Seq<char>, content_type: Seq<char>, body: Seq<char>)
    ensures
        ({
            let t = http_text(status, content_type, body);
            &&& t.skip(t.len() - body.len()) == body
            &&& ("HTTP/1.0 "@ + status + "\r\nContent-Type: "@ + content_type
                + "\r\nContent-Length: "@ + text::decimal_text(
                utf8::encode_utf8(body).len(),
            )).is_prefix_of(t)
        }),
{
    let t = http_text(status, content_type, body);
    let head = "HTTP/1.0 "@ + status + "\r\nContent-Type: "@ + content_type
        + "\r\nContent-Length: "@ + text::decimal_text(utf8::encode_utf8(body).len());
    assert(t.skip(t.len() - body.len()) =~= body);
    assert(t.take(head.len() as int) =~= head);
}

} // verus!
