//! The state behind the terminal surface: the bounded list of rendered
//! message lines, the input history, and what each key press does to them.
//! Drawing is left to the caller, which is told what to redraw.

use vstd::prelude::*;
use crate::message::{Message, MessageView};
use crate::text::{
    decimal, pop_char, push_char, push_decimal, push_text, same_text, starts_with, views,
};

verus! {

/// Prompt in front of the input line.
pub const USER_INPUT_PROMPT: &'static str = "BROADCAST >>> ";

/// Width of the prompt, in columns.
pub const USER_INPUT_PROMPT_LENGTH: usize = 14;

/// Line, counted up from the bottom, of the newest message.
pub const START_MESSAGE_LINE: usize = 2;

/// Line, counted up from the bottom, of the status bar.
pub const STATUS_BAR_LINE: usize = 1;

/// How many submitted lines the input history keeps.
pub const MAX_INPUT_HISTORY: usize = 50;

/// Relies on chrono's `Local::now` and `DateTime::format`: the current local
/// time written with the strftime pattern `fmt`. Both patterns admitted are
/// valid, so formatting cannot fail; the result depends on the clock, so
/// nothing is promised of it.
#[verifier::external_body]
fn local_now_formatted(fmt: &str) -> (r: String)
    requires
        fmt@ == "%H:%M:%S"@ || fmt@ == "%Y-%m-%d"@,
{
    chrono::Local::now().format(fmt).to_string()
}

/// What the display state holds.
pub ghost struct EngineView {
    pub height: usize,
    pub width: usize,
    pub previous_height: usize,
    pub previous_width: usize,
    pub max_message_lines: usize,
    pub message_lines: Seq<Seq<char>>,
    pub input_history: Seq<Seq<char>>,
    pub history_position: usize,
    pub current_input: Seq<char>,
}

/// The rendered line of `m`, stamped `timestamp`: a message typed here reads
/// `[t] YOU >>> name: content`, one received `[t] ip >>> name: content`.
pub open spec fn message_line(m: MessageView, timestamp: Seq<char>) -> Seq<char> {
    let who = if m.sender_ip == "local"@ {
        "YOU"@
    } else {
        m.sender_ip
    };
    "["@ + timestamp + "] "@ + who + " >>> "@ + m.sender_name + ": "@ + m.content
}

/// `lines` with `line` appended, the oldest dropped when more than `max` remain.
pub open spec fn bounded_push(lines: Seq<Seq<char>>, line: Seq<char>, max: usize) -> Seq<
    Seq<char>,
> {
    if lines.len() + 1 > max {
        lines.push(line).drop_first()
    } else {
        lines.push(line)
    }
}

/// The display state: terminal size, the rendered message lines, the input
/// history and the position of history browsing.
pub struct GraphicsEngine {
    height: usize,
    width: usize,
    previous_height: usize,
    previous_width: usize,
    max_message_lines: usize,
    message_lines: Vec<String>,
    input_history: Vec<String>,
    history_position: usize,
    current_input: String,
}

impl View for GraphicsEngine {
    type V = EngineView;

    closed spec fn view(&self) -> EngineView {
        EngineView {
            height: self.height,
            width: self.width,
            previous_height: self.previous_height,
            previous_width: self.previous_width,
            max_message_lines: self.max_message_lines,
            message_lines: views(self.message_lines@),
            input_history: views(self.input_history@),
            history_position: self.history_position,
            current_input: self.current_input@,
        }
    }
}

impl EngineView {
    /// The bounds that every state keeps.
    pub open spec fn wf(self) -> bool {
        &&& self.message_lines.len() <= self.max_message_lines
        &&& self.input_history.len() <= MAX_INPUT_HISTORY
        &&& self.history_position <= self.input_history.len()
    }
}

impl GraphicsEngine {
    #[verifier::type_invariant]
    spec fn bounded(&self) -> bool {
        self@.wf()
    }

    /// An engine for a terminal of `width` by `height`, keeping at most
    /// `max_message_lines` message lines.
    pub fn new(max_message_lines: usize, width: usize, height: usize) -> (r: Self)
        ensures
            r@ == (EngineView {
                height,
                width,
                previous_height: height,
                previous_width: width,
                max_message_lines,
                message_lines: Seq::empty(),
                input_history: Seq::empty(),
                history_position: 0,
                current_input: Seq::empty(),
            }),
    {
        let r = GraphicsEngine {
            height,
            width,
            previous_height: height,
            previous_width: width,
            max_message_lines,
            message_lines: Vec::new(),
            input_history: Vec::new(),
            history_position: 0,
            current_input: String::new(),
        };
        assert(views(r.message_lines@) =~= Seq::empty());
        assert(views(r.input_history@) =~= Seq::empty());
        r
    }

    /// Records the terminal size now in effect.
    pub fn update_resolution(&mut self, width: usize, height: usize)
        ensures
            final(self)@ == (EngineView { width, height, ..old(self)@ }),
    {
        proof {
            use_type_invariant(&*self);
        }
        self.width = width;
        self.height = height;
    }

    /// Whether the size changed since the last call; the current size becomes
    /// the one to compare against.
    pub fn resolution_changed(&mut self) -> (changed: bool)
        ensures
            changed == (old(self)@.height != old(self)@.previous_height || old(self)@.width
                != old(self)@.previous_width),
            final(self)@ == (EngineView {
                previous_height: old(self)@.height,
                previous_width: old(self)@.width,
                ..old(self)@
            }),
    {
        proof {
            use_type_invariant(&*self);
        }
        let changed = self.previous_height != self.height || self.previous_width != self.width;
        self.previous_height = self.height;
        self.previous_width = self.width;
        changed
    }

    pub fn width(&self) -> (r: usize)
        ensures
            r == self@.width,
    {
        self.width
    }

    pub fn height(&self) -> (r: usize)
        ensures
            r == self@.height,
    {
        self.height
    }

    pub fn max_message_lines(&self) -> (r: usize)
        ensures
            r == self@.max_message_lines,
    {
        self.max_message_lines
    }

    /// The rendered message lines, oldest first.
    pub fn message_lines(&self) -> (r: &Vec<String>)
        ensures
            views(r@) == self@.message_lines,
    {
        &self.message_lines
    }

    /// The screen row, from the top, of the line `line_height` lines above the
    /// bottom; none when the terminal is not that tall.
    pub fn row_of_line(&self, line_height: usize) -> (r: Option<usize>)
        ensures
            line_height >= self@.height ==> r is None,
            line_height < self@.height ==> r == Some((self@.height - line_height - 1) as usize),
    {
        if line_height >= self.height {
            None
        } else {
            Some(self.height - line_height - 1)
        }
    }

    /// Appends the line of `message` stamped `timestamp`, dropping the oldest
    /// line when more than the maximum would remain.
    pub fn add_message_at(&mut self, message: &Message, timestamp: &str)
        ensures
            final(self)@ == (EngineView {
                message_lines: bounded_push(
                    old(self)@.message_lines,
                    message_line(message@, timestamp@),
                    old(self)@.max_message_lines,
                ),
                ..old(self)@
            }),
    {
        let mut line = String::from_str("[");
        push_text(&mut line, timestamp);
        push_text(&mut line, "] ");
        if same_text(message.sender_ip(), "local") {
            push_text(&mut line, "YOU");
        } else {
            push_text(&mut line, message.sender_ip());
        }
        push_text(&mut line, " >>> ");
        push_text(&mut line, message.sender_name());
        push_text(&mut line, ": ");
        push_text(&mut line, message.content());
        assert(line@ =~= message_line(message@, timestamp@));
        proof {
            use_type_invariant(&*self);
        }
        let mut lines: Vec<String> = Vec::new();
        std::mem::swap(&mut self.message_lines, &mut lines);
        let ghost before = views(lines@);
        lines.push(line);
        assert(views(lines@) =~= before.push(message_line(message@, timestamp@)));
        if lines.len() > self.max_message_lines {
            lines.remove(0);
            assert(views(lines@) =~= before.push(message_line(message@, timestamp@)).drop_first());
        }
        self.message_lines = lines;
    }

    /// Appends the line of `message`, stamped with the local time of day.
    pub fn add_message(&mut self, message: &Message)
        ensures
            exists|t: Seq<char>|
                final(self)@ == (EngineView {
                    message_lines: bounded_push(
                        old(self)@.message_lines,
                        #[trigger] message_line(message@, t),
                        old(self)@.max_message_lines,
                    ),
                    ..old(self)@
                }),
    {
        let timestamp = local_now_formatted("%H:%M:%S");
        self.add_message_at(message, timestamp.as_str());
    }
}

/// The views of a slice of texts.
pub open spec fn str_views(ss: Seq<&str>) -> Seq<Seq<char>> {
    ss.map_values(|s: &str| s@)
}

/// `p` starts every text of `ss`.
pub open spec fn is_common_prefix(p: Seq<char>, ss: Seq<Seq<char>>) -> bool {
    forall|j: int| 0 <= j < ss.len() ==> p.is_prefix_of(#[trigger] ss[j])
}

/// `p` starts every text of `ss`, and no longer prefix of the first does.
pub open spec fn is_longest_common_prefix(p: Seq<char>, ss: Seq<Seq<char>>) -> bool {
    &&& is_common_prefix(p, ss)
    &&& (p.len() == ss[0].len() || exists|j: int|
        0 <= j < ss.len() && (#[trigger] ss[j].len() == p.len() || ss[j][p.len() as int]
            != ss[0][p.len() as int]))
}

impl GraphicsEngine {
    /// The longest common prefix of `strings`, if not empty. A single text is
    /// its own prefix, even when empty; no texts have none.
    pub fn find_common_prefix(strings: &[&str]) -> (r: Option<String>)
        ensures
            strings@.len() == 0 ==> r is None,
            strings@.len() == 1 ==> r is Some && r->0@ == strings@[0]@,
            strings@.len() >= 2 ==> match r {
                Some(p) => p@.len() > 0 && is_longest_common_prefix(p@, str_views(strings@)),
                None => is_longest_common_prefix(Seq::empty(), str_views(strings@)),
            },
    {
        if strings.len() == 0 {
            return None;
        }
        if strings.len() == 1 {
            return Some(String::from_str(strings[0]));
        }
        let ghost ss = str_views(strings@);
        let first = strings[0];
        let first_len = first.unicode_len();
        let mut common_prefix = String::new();
        let mut i: usize = 0;
        let mut stopped = false;
        while i < first_len && !stopped
            invariant
                ss == str_views(strings@),
                strings@.len() >= 2,
                first@ == ss[0],
                first_len == ss[0].len(),
                i <= first_len,
                common_prefix@ == ss[0].subrange(0, i as int),
                is_common_prefix(common_prefix@, ss),
                stopped ==> exists|j: int|
                    0 <= j < ss.len() && (#[trigger] ss[j].len() == i || ss[j][i as int]
                        != ss[0][i as int]),
            decreases first_len - i + (if stopped { 0int } else { 1int }),
        {
            let c = first.get_char(i);
            let mut all = true;
            let mut j: usize = 0;
            while j < strings.len() && all
                invariant
                    ss == str_views(strings@),
                    i < first_len == ss[0].len(),
                    c == ss[0][i as int],
                    j <= strings@.len(),
                    all ==> forall|k: int|
                        0 <= k < j ==> i < #[trigger] ss[k].len() && ss[k][i as int] == c,
                    !all ==> exists|k: int|
                        0 <= k < j && (#[trigger] ss[k].len() <= i || ss[k][i as int] != c),
                decreases strings.len() - j,
            {
                let s = strings[j];
                assert(s@ == ss[j as int]);
                let ok = i < s.unicode_len() && s.get_char(i) == c;
                if !ok {
                    assert(ss[j as int].len() <= i || ss[j as int][i as int] != c);
                    all = false;
                } else {
                    proof {
                        assert forall|k: int| 0 <= k < j + 1 implies i < #[trigger] ss[k].len()
                            && ss[k][i as int] == c by {
                            if k == j {
                                assert(s@ == ss[k]);
                            }
                        }
                    }
                }
                j = j + 1;
            }
            if all {
                push_char(&mut common_prefix, c);
                proof {
                    assert forall|k: int| 0 <= k < ss.len() implies common_prefix@.is_prefix_of(
                        #[trigger] ss[k],
                    ) by {
                        assert(ss[k].subrange(0, i as int) == ss[0].subrange(0, i as int));
                        assert(ss[k][i as int] == c);
                        assert(common_prefix@ =~= ss[k].subrange(0, i + 1));
                    }
                }
                i = i + 1;
                assert(common_prefix@ =~= ss[0].subrange(0, i as int));
            } else {
                proof {
                    let k = choose|k: int|
                        0 <= k < ss.len() && (#[trigger] ss[k].len() <= i || ss[k][i as int] != c);
                    assert(ss[k].len() >= i) by {
                        assert(common_prefix@.is_prefix_of(ss[k]));
                    }
                }
                stopped = true;
            }
        }
        proof {
            if !stopped {
                assert(common_prefix@.len() == ss[0].len());
            }
        }
        if common_prefix.as_str().unicode_len() == 0 {
            None
        } else {
            Some(common_prefix)
        }
    }
}

/// Two longest common prefixes of the same texts are the same.
pub proof fn lemma_longest_common_prefix_unique(p: Seq<char>, q: Seq<char>, ss: Seq<Seq<char>>)
    requires
        ss.len() > 0,
        is_longest_common_prefix(p, ss),
        is_longest_common_prefix(q, ss),
    ensures
        p == q,
{
    assert(p.is_prefix_of(ss[0]));
    assert(q.is_prefix_of(ss[0]));
    if p.len() < q.len() {
        if p.len() != ss[0].len() {
            let j = choose|j: int|
                0 <= j < ss.len() && (#[trigger] ss[j].len() == p.len() || ss[j][p.len() as int]
                    != ss[0][p.len() as int]);
            assert(q.is_prefix_of(ss[j]));
            assert(ss[j][p.len() as int] == q[p.len() as int]);
        }
    } else if q.len() < p.len() {
        if q.len() != ss[0].len() {
            let j = choose|j: int|
                0 <= j < ss.len() && (#[trigger] ss[j].len() == q.len() || ss[j][q.len() as int]
                    != ss[0][q.len() as int]);
            assert(p.is_prefix_of(ss[j]));
            assert(ss[j][q.len() as int] == p[q.len() as int]);
        }
    }
    assert(p =~= ss[0].subrange(0, p.len() as int));
    assert(q =~= ss[0].subrange(0, q.len() as int));
}

/// The commands that tab completion knows.
pub open spec fn command_list() -> Seq<Seq<char>> {
    seq!["/help"@, "/quit"@, "/clear"@, "/users"@, "/ping"@]
}

/// The commands that tab completion knows, in order.
pub fn common_commands() -> (r: Vec<&'static str>)
    ensures
        str_views(r@) == command_list(),
{
    let r = vec!["/help", "/quit", "/clear", "/users", "/ping"];
    assert(str_views(r@) =~= command_list());
    r
}

/// The texts of `cmds` that begin with `p`, in order.
pub open spec fn matches_of(cmds: Seq<Seq<char>>, p: Seq<char>) -> Seq<Seq<char>>
    decreases cmds.len(),
{
    if cmds.len() == 0 {
        Seq::empty()
    } else {
        let earlier = matches_of(cmds.drop_last(), p);
        if p.is_prefix_of(cmds.last()) {
            earlier.push(cmds.last())
        } else {
            earlier
        }
    }
}

/// The texts joined with two spaces between neighbours.
pub open spec fn gap_joined(ss: Seq<Seq<char>>) -> Seq<char>
    decreases ss.len(),
{
    if ss.len() == 0 {
        Seq::empty()
    } else if ss.len() == 1 {
        ss[0]
    } else {
        gap_joined(ss.drop_last()) + "  "@ + ss.last()
    }
}

/// The known commands that begin with `input`, in order.
pub fn matching_commands(input: &str) -> (r: Vec<&'static str>)
    ensures
        str_views(r@) == matches_of(command_list(), input@),
{
    let cmds = common_commands();
    let mut r: Vec<&'static str> = Vec::new();
    let mut i: usize = 0;
    while i < cmds.len()
        invariant
            str_views(cmds@) == command_list(),
            i <= cmds.len(),
            str_views(r@) == matches_of(str_views(cmds@).subrange(0, i as int), input@),
        decreases cmds.len() - i,
    {
        let ghost before = str_views(cmds@).subrange(0, i as int);
        let ghost after = str_views(cmds@).subrange(0, i + 1);
        assert(after.drop_last() =~= before);
        if starts_with(cmds[i], input) {
            r.push(cmds[i]);
        }
        i = i + 1;
        assert(str_views(r@) =~= matches_of(after, input@));
    }
    assert(str_views(cmds@).subrange(0, i as int) =~= command_list());
    r
}

/// The texts joined with two spaces between neighbours.
fn join_with_gap(items: &Vec<&'static str>) -> (r: String)
    ensures
        r@ == gap_joined(str_views(items@)),
{
    let ghost all = str_views(items@);
    let mut r = String::new();
    let mut i: usize = 0;
    assert(all.subrange(0, 0) =~= Seq::<Seq<char>>::empty());
    while i < items.len()
        invariant
            all == str_views(items@),
            i <= items.len(),
            r@ == gap_joined(all.subrange(0, i as int)),
        decreases items.len() - i,
    {
        let ghost next = all.subrange(0, i + 1);
        assert(next.drop_last() =~= all.subrange(0, i as int));
        if i > 0 {
            push_text(&mut r, "  ");
        } else {
            assert(next =~= seq![all[0]]);
        }
        push_text(&mut r, items[i]);
        i = i + 1;
    }
    assert(all.subrange(0, i as int) =~= all);
    r
}

/// A key press, as the input loop sees it. `Control` is a character typed
/// with the control modifier alone.
#[derive(Clone, Copy, Debug, PartialEq, Eq, Structural)]
pub enum Key {
    Enter,
    Char(char),
    Control(char),
    Backspace,
    Tab,
    Up,
    Down,
    Esc,
    Other,
}

/// What the caller is to do on screen after a key press.
#[derive(Debug)]
pub enum InputAction {
    /// Nothing to draw.
    Nothing,
    /// The line is complete: send it.
    Submit,
    /// Leave the program.
    Exit,
    /// Clear and redraw everything, then the input line.
    Redraw,
    /// Print the typed character.
    Echo(char),
    /// Erase the character left of the cursor.
    EraseLast,
    /// Rewrite the input line with the new input.
    ShowInput,
    /// Show the candidate commands above the input line; rewrite the input
    /// line too when it changed.
    ShowMatches { matches: String, input_changed: bool },
}

/// The state after Enter with `input` typed: a non-empty line that differs
/// from the newest entry joins the history (the oldest leaves beyond its
/// bound), browsing restarts past the newest entry, and the saved input is
/// cleared.
pub open spec fn after_enter(v: EngineView, input: Seq<char>) -> EngineView {
    let h = v.input_history;
    let h1 = if input.len() > 0 && (h.len() == 0 || h.last() != input) {
        if h.len() + 1 > MAX_INPUT_HISTORY {
            h.push(input).drop_first()
        } else {
            h.push(input)
        }
    } else {
        h
    };
    EngineView {
        input_history: h1,
        history_position: h1.len() as usize,
        current_input: Seq::empty(),
        ..v
    }
}

/// What Tab does to `in0`: a line that begins with `/` is completed to the one
/// command it begins, or, when several do, they are listed and the line grows
/// to their longest common prefix if that is longer.
pub open spec fn tab_effect(in0: Seq<char>, in1: Seq<char>, action: InputAction) -> bool {
    let m = matches_of(command_list(), in0);
    if in0.len() > 0 && in0[0] == '/' && m.len() == 1 {
        action is ShowInput && in1 == m[0]
    } else if in0.len() > 0 && in0[0] == '/' && m.len() > 1 {
        match action {
            InputAction::ShowMatches { matches, input_changed } => {
                &&& matches@ == gap_joined(m)
                &&& input_changed ==> in1.len() > in0.len() && is_longest_common_prefix(in1, m)
                &&& !input_changed ==> in1 == in0 && forall|p: Seq<char>|
                    #[trigger] is_longest_common_prefix(p, m) ==> p.len() <= in0.len()
            },
            _ => false,
        }
    } else {
        action is Nothing && in1 == in0
    }
}

/// What key `key` does, from state `v0` with input `in0`, to state `v1`
/// with input `in1`, telling the caller `action`.
pub open spec fn key_effect(
    v0: EngineView,
    in0: Seq<char>,
    key: Key,
    v1: EngineView,
    in1: Seq<char>,
    action: InputAction,
) -> bool {
    let pos = v0.history_position;
    let h = v0.input_history;
    match key {
        Key::Enter => action is Submit && in1 == in0 && v1 == after_enter(v0, in0),
        Key::Backspace => v1 == v0 && if in0.len() > 0 {
            action is EraseLast && in1 == in0.drop_last()
        } else {
            action is Nothing && in1 == in0
        },
        Key::Up => if h.len() > 0 && pos > 0 {
            &&& action is ShowInput
            &&& in1 == h[pos - 1]
            &&& v1 == (EngineView {
                history_position: (pos - 1) as usize,
                current_input: if pos == h.len() {
                    in0
                } else {
                    v0.current_input
                },
                ..v0
            })
        } else {
            action is Nothing && in1 == in0 && v1 == v0
        },
        Key::Down => if pos < h.len() {
            &&& action is ShowInput
            &&& in1 == if pos + 1 == h.len() {
                v0.current_input
            } else {
                h[pos + 1]
            }
            &&& v1 == (EngineView { history_position: (pos + 1) as usize, ..v0 })
        } else {
            action is Nothing && in1 == in0 && v1 == v0
        },
        Key::Tab => v1 == v0 && tab_effect(in0, in1, action),
        Key::Esc => action is Exit && in1 == in0 && v1 == v0,
        Key::Control(c) => v1 == v0 && if c == 'q' || c == 'c' {
            action is Exit && in1 == in0
        } else if c == 'l' {
            action is Redraw && in1 == in0
        } else {
            action == InputAction::Echo(c) && in1 == in0.push(c)
        },
        Key::Char(c) => v1 == v0 && action == InputAction::Echo(c) && in1 == in0.push(c),
        Key::Other => action is Nothing && in1 == in0 && v1 == v0,
    }
}

impl GraphicsEngine {
    /// Applies key `key` to the input line `input` and to the history.
    pub fn handle_key(&mut self, input: &mut String, key: Key) -> (action: InputAction)
        ensures
            key_effect(old(self)@, old(input)@, key, final(self)@, final(input)@, action),
    {
        match key {
            Key::Enter => {
                self.remember(input.as_str());
                InputAction::Submit
            },
            Key::Backspace => {
                if input.as_str().unicode_len() > 0 {
                    pop_char(input);
                    InputAction::EraseLast
                } else {
                    InputAction::Nothing
                }
            },
            Key::Up => self.history_back(input),
            Key::Down => self.history_forward(input),
            Key::Tab => Self::complete(input),
            Key::Esc => InputAction::Exit,
            Key::Control(c) => {
                if c == 'q' || c == 'c' {
                    InputAction::Exit
                } else if c == 'l' {
                    InputAction::Redraw
                } else {
                    push_char(input, c);
                    InputAction::Echo(c)
                }
            },
            Key::Char(c) => {
                push_char(input, c);
                InputAction::Echo(c)
            },
            Key::Other => InputAction::Nothing,
        }
    }

    fn remember(&mut self, input: &str)
        ensures
            final(self)@ == after_enter(old(self)@, input@),
    {
        proof {
            use_type_invariant(&*self);
        }
        let n = self.input_history.len();
        let fresh = input.unicode_len() > 0 && (n == 0 || !same_text(
            self.input_history[n - 1].as_str(),
            input,
        ));
        self.history_position = 0;
        let mut history: Vec<String> = Vec::new();
        std::mem::swap(&mut self.input_history, &mut history);
        let ghost h = views(history@);
        if fresh {
            history.push(String::from_str(input));
            assert(views(history@) =~= h.push(input@));
            if history.len() > MAX_INPUT_HISTORY {
                history.remove(0);
                assert(views(history@) =~= h.push(input@).drop_first());
            }
        }
        self.input_history = history;
        self.history_position = self.input_history.len();
        self.current_input = String::new();
    }

    fn history_back(&mut self, input: &mut String) -> (action: InputAction)
        ensures
            key_effect(old(self)@, old(input)@, Key::Up, final(self)@, final(input)@, action),
    {
        proof {
            use_type_invariant(&*self);
        }
        let n = self.input_history.len();
        if n > 0 && self.history_position > 0 {
            if self.history_position == n {
                self.current_input = input.clone();
            }
            self.history_position = self.history_position - 1;
            *input = self.input_history[self.history_position].clone();
            InputAction::ShowInput
        } else {
            InputAction::Nothing
        }
    }

    fn history_forward(&mut self, input: &mut String) -> (action: InputAction)
        ensures
            key_effect(old(self)@, old(input)@, Key::Down, final(self)@, final(input)@, action),
    {
        proof {
            use_type_invariant(&*self);
        }
        let n = self.input_history.len();
        if self.history_position < n {
            self.history_position = self.history_position + 1;
            if self.history_position == n {
                *input = self.current_input.clone();
            } else {
                *input = self.input_history[self.history_position].clone();
            }
            InputAction::ShowInput
        } else {
            InputAction::Nothing
        }
    }

    fn complete(input: &mut String) -> (action: InputAction)
        ensures
            tab_effect(old(input)@, final(input)@, action),
    {
        let n = input.as_str().unicode_len();
        if n == 0 || input.as_str().get_char(0) != '/' {
            return InputAction::Nothing;
        }
        let matching = matching_commands(input.as_str());
        let ghost m = matches_of(command_list(), old(input)@);
        if matching.len() == 1 {
            *input = String::from_str(matching[0]);
            return InputAction::ShowInput;
        }
        if matching.len() == 0 {
            return InputAction::Nothing;
        }
        let matches = join_with_gap(&matching);
        let prefix = Self::find_common_prefix(matching.as_slice());
        let mut input_changed = false;
        match prefix {
            Some(p) => {
                if p.as_str().unicode_len() > n {
                    *input = p;
                    input_changed = true;
                } else {
                    proof {
                        assert forall|q: Seq<char>|
                            #[trigger] is_longest_common_prefix(q, m) implies q.len() <= n by {
                            lemma_longest_common_prefix_unique(q, p@, m);
                        }
                    }
                }
            },
            None => {
                proof {
                    assert forall|q: Seq<char>|
                        #[trigger] is_longest_common_prefix(q, m) implies q.len() <= n by {
                        lemma_longest_common_prefix_unique(q, Seq::empty(), m);
                    }
                }
            },
        }
        InputAction::ShowMatches { matches, input_changed }
    }
}

/// The key help shown at the end of the status bar.
pub const STATUS_HELP: &'static str = "Ctrl+L: Clear | \u{2191}\u{2193}: History";

/// The status bar: time, date, terminal size and key help.
pub open spec fn status_line(time: Seq<char>, date: Seq<char>, width: usize, height: usize) -> Seq<
    char,
> {
    " \u{1f552} "@ + time + " | \u{1f4c5} "@ + date + " | \u{1f4fa} "@ + decimal(width as nat) + "x"@
        + decimal(height as nat) + " | \u{2328}\u{fe0f}  "@ + STATUS_HELP@ + " "@
}

/// `s` cut to its first `n` characters.
pub open spec fn truncated(s: Seq<char>, n: usize) -> Seq<char> {
    if s.len() > n {
        s.subrange(0, n as int)
    } else {
        s
    }
}

impl GraphicsEngine {
    /// The status bar for time `time` and date `date`, cut to the terminal width.
    pub fn status_text(&self, time: &str, date: &str) -> (r: String)
        ensures
            r@ == truncated(status_line(time@, date@, self@.width, self@.height), self@.width),
    {
        let mut line = String::from_str(" \u{1f552} ");
        push_text(&mut line, time);
        push_text(&mut line, " | \u{1f4c5} ");
        push_text(&mut line, date);
        push_text(&mut line, " | \u{1f4fa} ");
        push_decimal(&mut line, self.width as u64);
        push_text(&mut line, "x");
        push_decimal(&mut line, self.height as u64);
        push_text(&mut line, " | \u{2328}\u{fe0f}  ");
        push_text(&mut line, STATUS_HELP);
        push_text(&mut line, " ");
        assert(line@ =~= status_line(time@, date@, self@.width, self@.height));
        if line.as_str().unicode_len() > self.width {
            String::from_str(line.as_str().substring_char(0, self.width))
        } else {
            line
        }
    }

    /// The status bar at the current local time.
    pub fn status_bar(&self) -> (r: String)
        ensures
            exists|t: Seq<char>, d: Seq<char>|
                r@ == truncated(#[trigger] status_line(t, d, self@.width, self@.height), self@.width),
    {
        let time = local_now_formatted("%H:%M:%S");
        let date = local_now_formatted("%Y-%m-%d");
        self.status_text(time.as_str(), date.as_str())
    }
}

} // verus!
