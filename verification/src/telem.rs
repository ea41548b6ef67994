//! The host tool's side of the stream: finding the port and turning frames into readable lines.
use vstd::prelude::*;
use vstd::slice::slice_subrange;
use vstd::string::*;
use vstd::utf8::*;

use crate::figures;
use crate::text;
use crate::wire;
use crate::wire::{Board, Frame, Level, Msg, Receiver};

verus! {

/// A serial port of the host.
pub struct PortInfo {
    pub name: String,
    /// Whether it is a USB port.
    pub usb: bool,
}

/// Which port to open: the first USB port, or else the first port.
pub open spec fn chosen_port(ports: Seq<PortInfo>) -> int {
    match first_usb(ports) {
        Some(i) => i,
        None => 0,
    }
}

/// The first USB port.
pub open spec fn first_usb(ports: Seq<PortInfo>) -> Option<int>
    decreases ports.len(),
{
    if ports.len() == 0 {
        None
    } else if ports[0].usb {
        Some(0)
    } else {
        match first_usb(ports.skip(1)) {
            Some(i) => Some(i + 1),
            None => None,
        }
    }
}

/// What comes before the first zero.
pub open spec fn before_nul(b: Seq<u8>) -> Seq<u8>
    decreases b.len(),
{
    if b.len() == 0 || b[0] == 0 {
        Seq::empty()
    } else {
        seq![b[0]] + before_nul(b.skip(1))
    }
}

/// Bytes as text, with replacement characters where they are not UTF-8.
pub uninterp spec fn lossy(b: Seq<u8>) -> Seq<char>;

/// Calls `String::from_utf8_lossy`: the text depends on the bytes alone, and is what they encode
/// where they are UTF-8.
#[verifier::external_body]
fn lossy_text(b: &[u8]) -> (s: String)
    ensures
        s@ == lossy(b@),
        valid_utf8(b@) ==> s@ == decode_utf8(b@),
{
    String::from_utf8_lossy(b).into_owned()
}

/// The name of the port to open, where there is one.
pub fn detect_port(ports: &Vec<PortInfo>) -> (r: Option<String>)
    ensures
        r is Some <==> ports@.len() > 0,
        r matches Some(name) ==> name@ == ports@[chosen_port(ports@)].name@,
{
    let mut i: usize = 0;
    proof {
        assert(ports@.skip(0) =~= ports@);
    }
    while i < ports.len()
        invariant
            i <= ports.len(),
            first_usb(ports@) == (match first_usb(ports@.skip(i as int)) {
                Some(k) => Some(k + i),
                None => None,
            }),
        decreases ports.len() - i,
    {
        proof {
            assert(ports@.skip(i as int).skip(1) =~= ports@.skip(i + 1));
        }
        if ports[i].usb {
            return Some(ports[i].name.clone());
        }
        i += 1;
    }
    proof {
        assert(ports@.skip(i as int) =~= Seq::<PortInfo>::empty());
    }
    if ports.len() > 0 {
        Some(ports[0].name.clone())
    } else {
        None
    }
}

/// A zero-padded field as text.
pub fn nul_trimmed(b: &[u8]) -> (s: String)
    ensures
        s@ == lossy(before_nul(b@)),
        valid_utf8(before_nul(b@)) ==> s@ == decode_utf8(before_nul(b@)),
{
    let mut end: usize = 0;
    proof {
        assert(b@.skip(0) =~= b@);
        assert(b@.take(0) + before_nul(b@) =~= before_nul(b@));
    }
    while end < b.len() && b[end] != 0
        invariant
            end <= b@.len(),
            before_nul(b@) == b@.take(end as int) + before_nul(b@.skip(end as int)),
        decreases b@.len() - end,
    {
        proof {
            assert(b@.skip(end as int).skip(1) =~= b@.skip(end + 1));
            assert(b@.take(end + 1) =~= b@.take(end as int) + seq![b@[end as int]]);
            assert(before_nul(b@) =~= b@.take(end + 1) + before_nul(b@.skip(end + 1)));
        }
        end += 1;
    }
    proof {
        assert(before_nul(b@.skip(end as int)) =~= Seq::<u8>::empty());
        assert(before_nul(b@) =~= b@.subrange(0, end as int));
    }
    lossy_text(slice_subrange(b, 0, end))
}

/// The name of a board.
pub open spec fn board_name(b: Board) -> Seq<char> {
    match b {
        Board::ArkDiscovery => "ArkDiscovery"@,
        Board::HolybroDiscovery => "HolybroDiscovery"@,
        Board::Unknown => "Unknown"@,
    }
}

/// The name of a level.
pub open spec fn level_name(l: Level) -> Seq<char> {
    match l {
        Level::Info => "INFO"@,
        Level::Warn => "WARN"@,
        Level::Error => "ERROR"@,
    }
}

/// What is said of a stream whose protocol is not the host's.
pub open spec fn skew_note(proto: u16) -> Seq<char> {
    if proto != 2 {
        "  !! proto mismatch (host expects "@ + text::decimal(2) + ")"@
    } else {
        ""@
    }
}

/// The figures in a message.
pub open spec fn figures_in(msg: Msg) -> Seq<Seq<char>> {
    match msg {
        Msg::Imu(s) => figures::imu_figures(s),
        Msg::Baro(s) => figures::baro_figures(s),
        Msg::Mag(s) => figures::mag_figures(s),
        Msg::Fused(s) => figures::fused_figures(s),
        _ => Seq::empty(),
    }
}

/// How many figures there are in a message.
pub open spec fn figure_count(msg: Msg) -> nat {
    match msg {
        Msg::Imu(s) => 7,
        Msg::Baro(s) => 2,
        Msg::Mag(s) => 4,
        Msg::Fused(s) => 6,
        _ => 0,
    }
}

/// The text in a message.
pub open spec fn words_in(msg: Msg) -> Seq<char> {
    match msg {
        Msg::Hello(h) => lossy(before_nul(h.fw_git@)),
        Msg::Status(s) => lossy(before_nul(s.text@)),
        _ => Seq::empty(),
    }
}

/// What a message says, with its figures and its text already rendered.
pub open spec fn said(msg: Msg, figures: Seq<Seq<char>>, words: Seq<char>) -> Seq<char> {
    match msg {
        Msg::Hello(h) => "HELLO proto="@ + text::decimal(h.proto as nat) + " board="@ + board_name(
            h.board,
        ) + " fw="@ + words + skew_note(h.proto),
        Msg::Tick(n) => "tick "@ + text::decimal(n as nat),
        Msg::Imu(s) => "imu "@ + figures::imu_phrase(figures),
        Msg::Baro(s) => figures::baro_phrase(figures),
        Msg::Mag(s) => figures::mag_phrase(figures),
        Msg::Fused(s) => figures::fused_phrase(figures) + " resid="@ + figures[5] + "m"@,
        Msg::Status(s) => "["@ + level_name(s.level) + "] "@ + words,
    }
}

/// The line for a frame, with its figures and its text already rendered: the time stamp in eight
/// columns, then what the message says.
pub open spec fn frame_line(f: Frame, figures: Seq<Seq<char>>, words: Seq<char>) -> Seq<char> {
    "["@ + text::right_aligned(f.t_ms as nat, 8) + "] "@ + said(f.msg, figures, words)
}

/// The line for a frame.
pub open spec fn printed(f: Frame) -> Seq<char> {
    frame_line(f, figures_in(f.msg), words_in(f.msg))
}

/// The name of a board.
fn board_text(b: Board) -> (s: &'static str)
    ensures
        s@ == board_name(b),
{
    match b {
        Board::ArkDiscovery => "ArkDiscovery",
        Board::HolybroDiscovery => "HolybroDiscovery",
        Board::Unknown => "Unknown",
    }
}

/// The name of a level.
fn level_text(l: Level) -> (s: &'static str)
    ensures
        s@ == level_name(l),
{
    match l {
        Level::Info => "INFO",
        Level::Warn => "WARN",
        Level::Error => "ERROR",
    }
}

/// A note where the stream's protocol is not the host's.
fn skew_text(proto: u16) -> (s: String)
    ensures
        s@ == skew_note(proto),
{
    let expected: u16 = wire::protocol_version();
    if proto != expected {
        let mut s = "  !! proto mismatch (host expects ".to_owned();
        s.append(text::decimal_text(expected as u64).as_str());
        s.append(")");
        s
    } else {
        "".to_owned()
    }
}

/// The line for a frame whose figures and text are already rendered.
pub fn render_frame(f: &Frame, figs: &Vec<String>, words: &str) -> (line: String)
    requires
        figs@.len() == figure_count(f.msg),
    ensures
        line@ == frame_line(*f, text::texts(figs@), words@),
{
    let mut line = "[".to_owned();
    line.append(text::aligned_text(f.t_ms as u64, 8).as_str());
    line.append("] ");
    let ghost start = line@;
    match &f.msg {
        Msg::Hello(h) => {
            line.append("HELLO proto=");
            line.append(text::decimal_text(h.proto as u64).as_str());
            line.append(" board=");
            line.append(board_text(h.board));
            line.append(" fw=");
            line.append(words);
            line.append(skew_text(h.proto).as_str());
        },
        Msg::Tick(n) => {
            line.append("tick ");
            line.append(text::decimal_text(*n as u64).as_str());
        },
        Msg::Imu(_) => {
            line.append("imu ");
            line.append(figures::imu_phrase_text(figs).as_str());
        },
        Msg::Baro(_) => {
            line.append(figures::baro_phrase_text(figs).as_str());
        },
        Msg::Mag(_) => {
            line.append(figures::mag_phrase_text(figs).as_str());
        },
        Msg::Fused(_) => {
            line.append(figures::fused_phrase_text(figs).as_str());
            line.append(" resid=");
            line.append(figs[5].as_str());
            line.append("m");
        },
        Msg::Status(s) => {
            line.append("[");
            line.append(level_text(s.level));
            line.append("] ");
            line.append(words);
        },
    }
    proof {
        assert(line@ =~= start + said(f.msg, text::texts(figs@), words@));
    }
    line
}

/// The figures in a message.
fn figure_texts(msg: &Msg) -> (v: Vec<String>)
    ensures
        text::texts(v@) == figures_in(*msg),
{
    match msg {
        Msg::Imu(s) => figures::imu_figure_texts(s),
        Msg::Baro(s) => figures::baro_figure_texts(s),
        Msg::Mag(s) => figures::mag_figure_texts(s),
        Msg::Fused(s) => figures::fused_figure_texts(s),
        _ => {
            let v: Vec<String> = vec![];
            proof {
                assert(text::texts(v@) =~= Seq::<Seq<char>>::empty());
            }
            v
        },
    }
}

/// The line for a frame.
pub fn print_frame(f: &Frame) -> (line: String)
    ensures
        line@ == printed(*f),
{
    let figs = figure_texts(&f.msg);
    let words = match &f.msg {
        Msg::Hello(h) => nul_trimmed(h.fw_git.as_slice()),
        Msg::Status(s) => nul_trimmed(s.text.as_slice()),
        _ => {
            let s = String::new();
            proof {
                assert(s@ =~= Seq::<char>::empty());
            }
            s
        },
    };
    proof {
        assert(text::texts(figs@).len() == figs@.len());
    }
    render_frame(f, &figs, words.as_str())
}

/// What a chunk of the stream leads to.
pub struct Received {
    /// A line for each frame.
    pub lines: Vec<String>,
    /// What to say of dropped packets, where there are any.
    pub notice: Option<String>,
}

/// What is said of dropped packets.
pub open spec fn drop_notice(dropped: nat) -> Seq<char> {
    "telem: dropped "@ + text::decimal(dropped) + " frame(s) (resync / version skew)"@
}

/// The lines for frames.
pub open spec fn lines_for(frames: Seq<Frame>) -> Seq<Seq<char>> {
    Seq::new(frames.len(), |i: int| printed(frames[i]))
}

/// What to print for frames and a count of dropped packets.
pub fn report(frames: &Vec<Frame>, dropped: usize) -> (r: Received)
    ensures
        text::texts(r.lines@) == lines_for(frames@),
        r.notice is Some <==> dropped > 0,
        r.notice matches Some(s) ==> s@ == drop_notice(dropped as nat),
{
    let mut lines: Vec<String> = Vec::new();
    let mut i: usize = 0;
    proof {
        assert(text::texts(lines@) =~= lines_for(frames@).take(0));
    }
    while i < frames.len()
        invariant
            i <= frames.len(),
            text::texts(lines@) == lines_for(frames@).take(i as int),
        decreases frames.len() - i,
    {
        let ghost before = lines@;
        let line = print_frame(&frames[i]);
        proof {
            assert(text::texts(before.push(line)) =~= text::texts(before).push(line@));
        }
        lines.push(line);
        i += 1;
        proof {
            assert(text::texts(lines@) =~= lines_for(frames@).take(i as int));
        }
    }
    proof {
        assert(lines_for(frames@).take(i as int) =~= lines_for(frames@));
    }
    let notice = if dropped > 0 {
        let mut s = "telem: dropped ".to_owned();
        s.append(text::decimal_text(dropped as u64).as_str());
        s.append(" frame(s) (resync / version skew)");
        Some(s)
    } else {
        None
    };
    Received { lines, notice }
}

/// Take in the next bytes from the port.
pub fn receive(receiver: &mut Receiver, bytes: &[u8]) -> (r: Received)
    ensures
        final(receiver).held() == wire::fed(old(receiver).held(), bytes@).held,
        text::texts(r.lines@) == lines_for(wire::fed(old(receiver).held(), bytes@).frames),
        r.notice is Some <==> wire::fed(old(receiver).held(), bytes@).dropped > 0,
        r.notice matches Some(s) ==> s@ == drop_notice(
            wire::fed(old(receiver).held(), bytes@).dropped,
        ),
{
    let (frames, dropped) = receiver.push(bytes);
    report(&frames, dropped)
}

/// The firmware's greeting is taken without a complaint: its protocol is the host's.
pub proof fn own_greeting_is_understood(m: Msg, git_hash: Seq<char>, words: Seq<char>)
    requires
        crate::telemetry::is_hello(m, git_hash),
    ensures
        said(m, Seq::empty(), words) == "HELLO proto="@ + text::decimal(2)
            + " board=ArkDiscovery fw="@ + words,
{
    reveal_strlit("");
    reveal_strlit(" board=");
    reveal_strlit(" fw=");
    reveal_strlit("ArkDiscovery");
    reveal_strlit(" board=ArkDiscovery fw=");
    assert(said(m, Seq::empty(), words) =~= "HELLO proto="@ + text::decimal(2)
        + " board=ArkDiscovery fw="@ + words);
}

/// The port that is opened is a USB port wherever there is one, and then the first of them;
/// otherwise it is the first port of all.
pub proof fn a_usb_port_is_preferred(ports: Seq<PortInfo>)
    requires
        ports.len() > 0,
    ensures
        ({
            let i = chosen_port(ports);
            &&& 0 <= i < ports.len()
            &&& (exists|k: int| 0 <= k < ports.len() && #[trigger] ports[k].usb) ==> ports[i].usb
            &&& ports[i].usb ==> forall|k: int| 0 <= k < i ==> !#[trigger] ports[k].usb
            &&& !ports[i].usb ==> i == 0
        }),
{
    lemma_first_usb(ports);
}

/// What the search for a USB port finds.
proof fn lemma_first_usb(ports: Seq<PortInfo>)
    ensures
        match first_usb(ports) {
            Some(i) => {
                &&& 0 <= i < ports.len()
                &&& ports[i].usb
                &&& forall|k: int| 0 <= k < i ==> !#[trigger] ports[k].usb
            },
            None => forall|k: int| 0 <= k < ports.len() ==> !#[trigger] ports[k].usb,
        },
    decreases ports.len(),
{
    if ports.len() > 0 && !ports[0].usb {
        let tail = ports.skip(1);
        lemma_first_usb(tail);
        assert forall|k: int| 0 < k < ports.len() implies #[trigger] ports[k] == tail[k - 1] by {}
    }
}

/// Every line gives its frame's time stamp back, for every time stamp: between the first bracket and
/// the first closing bracket stand spaces and then the time stamp's digits, in eight columns or as
/// many as it takes; a space follows, and then what the message says.
#[verifier::rlimit(50)]
pub proof fn line_gives_the_time_back(f: Frame, figs: Seq<Seq<char>>, words: Seq<char>)
    ensures
        ({
            let line = frame_line(f, figs, words);
            exists|k: int, e: int|
                {
                    &&& 1 <= k < e && e + 1 < line.len()
                    &&& line[0] == '['
                    &&& forall|i: int| 1 <= i < k ==> #[trigger] line[i] == ' '
                    &&& forall|i: int| k <= i < e ==> '0' <= #[trigger] line[i] && line[i] <= '9'
                    &&& text::decimal_value(#[trigger] line.subrange(k, e)) == f.t_ms
                    &&& e >= 9
                    &&& k > 1 ==> e == 9
                    &&& line[e] == ']'
                    &&& line[e + 1] == ' '
                    &&& line.skip(e + 2) == said(f.msg, figs, words)
                }
        }),
{
    let n = f.t_ms as nat;
    let line = frame_line(f, figs, words);
    let r = text::right_aligned(n, 8);
    let d = text::decimal(n);
    reveal_strlit("[");
    reveal_strlit("] ");
    text::right_aligned_fills_the_width(n, 8);
    text::alignment_is_by_spaces(n, 8);
    text::decimal_is_digits(n);
    text::decimal_reads_back(n);
    let k = 1 + r.len() - d.len();
    let e = 1 + r.len() as int;
    assert forall|i: int| 1 <= i < e implies #[trigger] line[i] == r[i - 1] by {}
    assert(line.subrange(k, e) =~= r.skip(r.len() - d.len()));
    assert forall|i: int| k <= i < e implies '0' <= #[trigger] line[i] && line[i] <= '9' by {
        assert(line[i] == d[i - k]) by {
            assert(r.skip(r.len() - d.len())[i - k] == r[i - 1]);
        }
    }
    assert(line.skip(e + 2) =~= said(f.msg, figs, words));
}

/// Frames with different time stamps have different lines, whatever else they say.
pub proof fn lines_tell_times_apart(
    f: Frame,
    g: Frame,
    figs: Seq<Seq<char>>,
    figs2: Seq<Seq<char>>,
    words: Seq<char>,
    words2: Seq<char>,
)
    ensures
        frame_line(f, figs, words) == frame_line(g, figs2, words2) ==> f.t_ms == g.t_ms,
        printed(f) == printed(g) ==> f.t_ms == g.t_ms,
{
    lemma_same_line_same_time(f, g, figs, figs2, words, words2);
    lemma_same_line_same_time(
        f,
        g,
        figures_in(f.msg),
        figures_in(g.msg),
        words_in(f.msg),
        words_in(g.msg),
    );
}

/// Where two lines are the same, their time stamps are.
proof fn lemma_same_line_same_time(
    f: Frame,
    g: Frame,
    figs: Seq<Seq<char>>,
    figs2: Seq<Seq<char>>,
    words: Seq<char>,
    words2: Seq<char>,
)
    ensures
        frame_line(f, figs, words) == frame_line(g, figs2, words2) ==> f.t_ms == g.t_ms,
{
    let line = frame_line(f, figs, words);
    if line == frame_line(g, figs2, words2) {
        let (m, n) = (f.t_ms as nat, g.t_ms as nat);
        let (r, q) = (text::right_aligned(m, 8), text::right_aligned(n, 8));
        reveal_strlit("[");
        reveal_strlit("] ");
        lemma_no_bracket(m);
        lemma_no_bracket(n);
        assert(line[r.len() + 1int] == ']');
        assert(line[q.len() + 1int] == ']');
        assert forall|i: int| 0 <= i < r.len() implies #[trigger] r[i] == line[i + 1] by {}
        assert forall|i: int| 0 <= i < q.len() implies #[trigger] q[i] == line[i + 1] by {}
        if r.len() < q.len() {
            assert(q[r.len() as int] == ']');
        }
        if q.len() < r.len() {
            assert(r[q.len() as int] == ']');
        }
        assert(r =~= q);
        text::alignment_tells_numbers_apart(m, n, 8);
    }
}

/// There is no bracket in an aligned number.
proof fn lemma_no_bracket(n: nat)
    ensures
        forall|i: int|
            0 <= i < text::right_aligned(n, 8).len() ==> #[trigger] text::right_aligned(n, 8)[i]
                != ']',
{
    let r = text::right_aligned(n, 8);
    let d = text::decimal(n);
    text::right_aligned_fills_the_width(n, 8);
    text::alignment_is_by_spaces(n, 8);
    text::decimal_is_digits(n);
    assert forall|i: int| 0 <= i < r.len() implies #[trigger] r[i] != ']' by {
        if i >= r.len() - d.len() {
            assert(r[i] == r.skip(r.len() - d.len())[i - (r.len() - d.len())]);
        }
    }
}

/// What is said of each message, word for word. The number in a tick and the protocol in a greeting
/// come back from their digits; the figures stand in the order of the payload's fields.
#[verifier::rlimit(50)]
pub proof fn messages_word_for_word(msg: Msg, n: Seq<Seq<char>>, words: Seq<char>)
    ensures
        match msg {
            Msg::Hello(h) => exists|d: Seq<char>|
                {
                    &&& #[trigger] text::decimal_value(d) == h.proto
                    &&& forall|i: int| 0 <= i < d.len() ==> '0' <= #[trigger] d[i] && d[i] <= '9'
                    &&& said(msg, n, words) == "HELLO proto="@ + d + " board="@ + (match h.board {
                        Board::ArkDiscovery => "ArkDiscovery"@,
                        Board::HolybroDiscovery => "HolybroDiscovery"@,
                        Board::Unknown => "Unknown"@,
                    }) + " fw="@ + words + (if h.proto == 2 {
                        ""@
                    } else {
                        "  !! proto mismatch (host expects "@ + seq!['2'] + ")"@
                    })
                },
            Msg::Tick(k) => exists|d: Seq<char>|
                {
                    &&& #[trigger] text::decimal_value(d) == k
                    &&& forall|i: int| 0 <= i < d.len() ==> '0' <= #[trigger] d[i] && d[i] <= '9'
                    &&& said(msg, n, words) == "tick "@ + d
                },
            Msg::Imu(s) => said(msg, n, words) == "imu "@ + ("accel[g]="@ + n[0] + ","@ + n[1]
                + ","@ + n[2] + " gyro[dps]="@ + n[3] + ","@ + n[4] + ","@ + n[5] + " temp="@ + n[6]
                + "C"@),
            Msg::Baro(s) => said(msg, n, words) == "baro press="@ + n[0] + "hPa temp="@ + n[1]
                + "C"@,
            Msg::Mag(s) => said(msg, n, words) == "mag field[uT]="@ + n[0] + ","@ + n[1] + ","@
                + n[2] + " temp="@ + n[3] + "C"@,
            Msg::Fused(s) => said(msg, n, words) == "fus roll="@ + n[0] + " pitch="@ + n[1]
                + " yaw="@ + n[2] + "deg alt="@ + n[3] + "m vz="@ + n[4] + "m/s"@ + " resid="@
                + n[5] + "m"@,
            Msg::Status(s) => said(msg, n, words) == "["@ + (match s.level {
                Level::Info => "INFO"@,
                Level::Warn => "WARN"@,
                Level::Error => "ERROR"@,
            }) + "] "@ + words,
        },
{
    match msg {
        Msg::Hello(h) => {
            let d = text::decimal(h.proto as nat);
            text::decimal_reads_back(h.proto as nat);
            text::decimal_is_digits(h.proto as nat);
            text::a_digit_more(0, 2);
            assert(text::decimal(2) =~= seq!['2']);
            assert(text::decimal_value(d) == h.proto);
        },
        Msg::Tick(k) => {
            let d = text::decimal(k as nat);
            text::decimal_reads_back(k as nat);
            text::decimal_is_digits(k as nat);
            assert(text::decimal_value(d) == k);
        },
        _ => {},
    }
}

/// Which figures and which text a printed line shows: each field of the payload in turn, with the
/// places that the unit calls for, and a padded text up to its first zero.
pub proof fn printed_figures_are_the_fields(f: Frame)
    ensures
        ({
            let figs = match f.msg {
                Msg::Imu(s) => Seq::new(
                    7,
                    |i: int|
                        figures::imu_number(
                            s,
                            i as nat,
                            if i < 3 {
                                2
                            } else {
                                1
                            },
                        ),
                ),
                Msg::Baro(s) => Seq::new(2, |i: int| figures::baro_number(s, i as nat, 2)),
                Msg::Mag(s) => Seq::new(4, |i: int| figures::mag_number(s, i as nat, 1)),
                Msg::Fused(s) => Seq::new(
                    6,
                    |i: int|
                        figures::fused_number(
                            s,
                            i as nat,
                            if i < 3 {
                                1
                            } else {
                                2
                            },
                        ),
                ),
                _ => Seq::empty(),
            };
            let words = match f.msg {
                Msg::Hello(h) => lossy(before_nul(h.fw_git@)),
                Msg::Status(s) => lossy(before_nul(s.text@)),
                _ => Seq::empty(),
            };
            printed(f) == frame_line(f, figs, words)
        }),
{
    let fs = figures_in(f.msg);
    match f.msg {
        Msg::Imu(s) => {
            assert(fs =~= Seq::new(
                7,
                |i: int|
                    figures::imu_number(
                        s,
                        i as nat,
                        if i < 3 {
                            2
                        } else {
                            1
                        },
                    ),
            ));
        },
        Msg::Baro(s) => {
            assert(fs =~= Seq::new(2, |i: int| figures::baro_number(s, i as nat, 2)));
        },
        Msg::Mag(s) => {
            assert(fs =~= Seq::new(4, |i: int| figures::mag_number(s, i as nat, 1)));
        },
        Msg::Fused(s) => {
            assert(fs =~= Seq::new(
                6,
                |i: int|
                    figures::fused_number(
                        s,
                        i as nat,
                        if i < 3 {
                            1
                        } else {
                            2
                        },
                    ),
            ));
        },
        _ => {},
    }
}

/// A padded text is all that stands before its first zero, or all of it where there is none.
pub proof fn text_ends_at_the_first_zero(b: Seq<u8>)
    ensures
        before_nul(b).is_prefix_of(b),
        forall|i: int| 0 <= i < before_nul(b).len() ==> #[trigger] before_nul(b)[i] != 0,
        before_nul(b).len() < b.len() ==> b[before_nul(b).len() as int] == 0,
    decreases b.len(),
{
    if b.len() > 0 && b[0] != 0 {
        let tail = b.skip(1);
        text_ends_at_the_first_zero(tail);
        let t = before_nul(tail);
        let r = before_nul(b);
        assert forall|i: int| 0 <= i < r.len() implies #[trigger] r[i] != 0 && r[i] == b[i] by {
            if i > 0 {
                assert(r[i] == t[i - 1]);
                assert(t[i - 1] == tail.subrange(0, t.len() as int)[i - 1]);
                assert(tail[i - 1] == b[i]);
            }
        }
        assert(r =~= b.subrange(0, r.len() as int));
        if r.len() < b.len() {
            assert(b[r.len() as int] == tail[t.len() as int]);
        }
    }
}

/// Every frame gets its own line, in order, and the notice gives the number of dropped packets back.
pub proof fn report_is_complete(frames: Seq<Frame>, dropped: nat)
    ensures
        lines_for(frames).len() == frames.len(),
        forall|i: int| 0 <= i < frames.len() ==> #[trigger] lines_for(frames)[i] == printed(frames[i]),
        exists|d: Seq<char>|
            {
                &&& #[trigger] text::decimal_value(d) == dropped
                &&& forall|i: int| 0 <= i < d.len() ==> '0' <= #[trigger] d[i] && d[i] <= '9'
                &&& drop_notice(dropped) == "telem: dropped "@ + d
                    + " frame(s) (resync / version skew)"@
            },
{
    let d = text::decimal(dropped);
    text::decimal_reads_back(dropped);
    text::decimal_is_digits(dropped);
    assert(text::decimal_value(d) == dropped);
}

} // verus!
