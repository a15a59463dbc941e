//! Playlists that another program sends to the player: their text form, and
//! what the player makes of them.

use crate::pipe_codec::utf8_text;
use crate::player_state::{Controls, PlayerControls};
use crate::song::text_views;
use crate::text::{
    count_digits, decimal, digits_value, is_digit, law_decimal_round_trips, leading_digits,
    parse_digits, pieces, same_text, slice_text, split, split_once, split_once_at, starts_with,
    to_chars, trim, trimmed, occurs_at,
};
use vstd::prelude::*;
use vstd::utf8::{decode_utf8, encode_utf8, valid_utf8};

verus! {

/// The name of the playlist that the user fills.
pub const PLAYLIST_NAME_USER: &'static str = "用户";

/// The number that a text stands for: digits behind an optional plus sign, at
/// most `limit`.
pub open spec fn unsigned_value(s: Seq<char>, limit: int) -> Option<int> {
    let digits = if s.len() > 0 && s[0] == '+' {
        s.drop_first()
    } else {
        s
    };
    let n = digits_value(digits) as int;
    if digits.len() == 0 || leading_digits(digits) < digits.len() || n > limit {
        None
    } else {
        Some(n)
    }
}

/// The number that a text stands for, at most `limit`.
pub fn parse_unsigned(s: &str, limit: u64) -> (r: Option<u64>)
    ensures
        r is Some <==> unsigned_value(s@, limit as int) is Some,
        r matches Some(n) ==> unsigned_value(s@, limit as int) == Some(n as int) && n <= limit,
{
    let chars = to_chars(s);
    let n: usize = chars.len();
    let signed: bool = n > 0 && chars[0] == '+';
    let from: usize = if signed {
        1
    } else {
        0
    };
    let count: usize = count_digits(&chars, from, n);
    assert(signed ==> chars@.subrange(1, n as int) =~= s@.drop_first());
    assert(!signed ==> chars@.subrange(0, n as int) =~= s@);
    if from == n || count < n - from {
        return None;
    }
    parse_digits(&chars, from, n, limit)
}

/// The text without the `c` that it starts with.
pub open spec fn strip_start_of(s: Seq<char>, c: char) -> Seq<char>
    decreases s.len(),
{
    if s.len() > 0 && s[0] == c {
        strip_start_of(s.drop_first(), c)
    } else {
        s
    }
}

/// The text without the `c` that it ends on.
pub open spec fn strip_end_of(s: Seq<char>, c: char) -> Seq<char>
    decreases s.len(),
{
    if s.len() > 0 && s.last() == c {
        strip_end_of(s.drop_last(), c)
    } else {
        s
    }
}

/// The text of a line: without white space around it, and without null
/// characters around what is left.
pub open spec fn line_text(s: Seq<char>) -> Seq<char> {
    strip_end_of(strip_start_of(trimmed(s), '\0'), '\0')
}

/// The texts of some lines, without those that are empty.
pub open spec fn kept_lines(lines: Seq<Seq<char>>) -> Seq<Seq<char>>
    decreases lines.len(),
{
    if lines.len() == 0 {
        seq![]
    } else {
        let front = kept_lines(lines.drop_last());
        let text = line_text(lines.last());
        if text.len() == 0 {
            front
        } else {
            front.push(text)
        }
    }
}

/// The files that a text lists, one on each line.
pub open spec fn listed_files(s: Seq<char>) -> Seq<Seq<char>> {
    kept_lines(pieces(s, '\n'))
}

fn strip_nuls(s: &str) -> (r: String)
    ensures
        r@ == strip_end_of(strip_start_of(s@, '\0'), '\0'),
{
    let chars = to_chars(s);
    let n: usize = chars.len();
    let mut from: usize = 0;
    assert(s@.skip(0) =~= s@);
    while from < n && chars[from] == '\0'
        invariant
            chars@ == s@,
            n == s@.len(),
            from <= n,
            strip_start_of(s@, '\0') == strip_start_of(s@.skip(from as int), '\0'),
        decreases n - from,
    {
        assert(s@.skip(from as int).drop_first() =~= s@.skip(from + 1));
        from += 1;
    }
    let ghost rest = s@.skip(from as int);
    assert(strip_start_of(s@, '\0') == rest);
    let mut to: usize = n;
    assert(s@.subrange(from as int, to as int) =~= rest);
    while to > from && chars[to - 1] == '\0'
        invariant
            chars@ == s@,
            n == s@.len(),
            from <= to <= n,
            strip_end_of(rest, '\0') == strip_end_of(s@.subrange(from as int, to as int), '\0'),
        decreases to - from,
    {
        assert(s@.subrange(from as int, to as int).drop_last() =~= s@.subrange(
            from as int,
            to - 1,
        ));
        to -= 1;
    }
    slice_text(&chars, from, to)
}

fn list_files(s: &str) -> (r: Vec<String>)
    ensures
        text_views(r@) == listed_files(s@),
{
    let lines = split(s, '\n');
    let ghost views = pieces(s@, '\n');
    assert(text_views(lines@) =~= views);
    let mut r: Vec<String> = Vec::new();
    let mut i: usize = 0;
    while i < lines.len()
        invariant
            i <= lines@.len(),
            text_views(lines@) == views,
            text_views(r@) == kept_lines(views.take(i as int)),
        decreases lines@.len() - i,
    {
        proof {
            assert(views.take(i + 1).drop_last() =~= views.take(i as int));
            assert(views.take(i + 1).last() == lines@[i as int]@);
        }
        let outer = trim(lines[i].as_str());
        let text = strip_nuls(outer.as_str());
        if text.as_str().unicode_len() > 0 {
            let ghost before = r@;
            r.push(text);
            assert(text_views(r@) =~= text_views(before).push(text@));
        }
        i += 1;
    }
    assert(views.take(lines@.len() as int) =~= views);
    r
}

/// What a playlist that was sent asks for.
pub struct PlaylistRequest {
    pub files: Vec<String>,
    /// Zero is in order, one at random, two a single song.
    pub play_mode: u8,
    pub volume: u8,
    /// The song to start with, counted from one.
    pub pos: usize,
    /// Whether the playlist is the directory of the song to start with.
    pub auto_dir: bool,
    pub name: Option<String>,
}

/// What a playlist that was sent asks for, with its texts taken by view.
#[verifier::ext_equal]
pub struct Request {
    pub files: Seq<Seq<char>>,
    pub play_mode: u8,
    pub volume: u8,
    pub pos: usize,
    pub auto_dir: bool,
    pub name: Option<Seq<char>>,
}

impl View for PlaylistRequest {
    type V = Request;

    open spec fn view(&self) -> Request {
        Request {
            files: text_views(self.files@),
            play_mode: self.play_mode,
            volume: self.volume,
            pos: self.pos,
            auto_dir: self.auto_dir,
            name: match self.name {
                Some(name) => Some(name@),
                None => None,
            },
        }
    }
}

impl Request {
    /// What is asked for where the text says nothing of it.
    pub open spec fn plain() -> Request {
        Request {
            files: seq![],
            play_mode: 0,
            volume: 100,
            pos: 0,
            auto_dir: false,
            name: None,
        }
    }

    /// The request after the setting `key` was given the value `value`.
    pub open spec fn with_value(self, key: Seq<char>, value: Seq<char>) -> Request {
        if key == "play_mode"@ {
            let play_mode: u8 = if value == "rand"@ {
                1
            } else if value == "single"@ {
                2
            } else {
                0
            };
            Request { play_mode, ..self }
        } else if key == "volume"@ {
            let volume: u8 = match unsigned_value(value, 255) {
                Some(n) => n as u8,
                None => 80,
            };
            Request { volume, ..self }
        } else if key == "pos"@ {
            let pos: usize = match unsigned_value(value, usize::MAX as int) {
                Some(n) => n as usize,
                None => 0,
            };
            Request { pos, ..self }
        } else if key == "auto_dir"@ || key == "aotu_dir"@ {
            let auto_dir = match unsigned_value(value, u32::MAX as int) {
                Some(n) => n != 0,
                None => false,
            };
            Request { auto_dir, ..self }
        } else if key == "pl_name"@ && value.len() > 0 {
            Request { name: Some(value), ..self }
        } else {
            self
        }
    }

    /// The request after a setting was read; one without an equals sign says
    /// nothing.
    pub open spec fn with_setting(self, setting: Seq<char>) -> Request {
        match split_once_at(setting, "="@) {
            Some((key, value)) => self.with_value(trimmed(key), trimmed(value)),
            None => self,
        }
    }

    /// The request after some settings were read, one after the other.
    pub open spec fn with_settings(self, settings: Seq<Seq<char>>) -> Request
        decreases settings.len(),
    {
        if settings.len() == 0 {
            self
        } else {
            self.with_settings(settings.drop_last()).with_setting(settings.last())
        }
    }
}

/// The settings of a first line, without the word in front of them.
pub open spec fn settings_text(line: Seq<char>) -> Seq<char> {
    let text = trimmed(line.drop_first());
    if occurs_at(text, "info="@, 0) {
        trimmed(text.skip("info="@.len() as int))
    } else {
        text
    }
}

/// What a text asks for: the files on its lines, behind a line of settings where
/// it starts with `@`. A text of settings alone asks for nothing.
pub open spec fn requested(s: Seq<char>) -> Option<Request> {
    if occurs_at(s, "@"@, 0) {
        match split_once_at(s, "\n"@) {
            Some((line, list)) => {
                let settings = pieces(settings_text(line), ',');
                Some(Request { files: listed_files(list), ..Request::plain().with_settings(settings) })
            },
            None => None,
        }
    } else {
        Some(Request { files: listed_files(s), ..Request::plain() })
    }
}

fn take_setting(request: &mut PlaylistRequest, setting: &str)
    ensures
        final(request)@ == old(request)@.with_setting(setting@),
{
    let (key, value) = match split_once(setting, "=") {
        Some((key, value)) => (trim(key.as_str()), trim(value.as_str())),
        None => return,
    };
    if same_text(key.as_str(), "play_mode") {
        request.play_mode = if same_text(value.as_str(), "rand") {
            1
        } else if same_text(value.as_str(), "single") {
            2
        } else {
            0
        };
    } else if same_text(key.as_str(), "volume") {
        request.volume = match parse_unsigned(value.as_str(), 255) {
            Some(n) => n as u8,
            None => 80,
        };
    } else if same_text(key.as_str(), "pos") {
        request.pos = match parse_unsigned(value.as_str(), usize::MAX as u64) {
            Some(n) => n as usize,
            None => 0,
        };
    } else if same_text(key.as_str(), "auto_dir") || same_text(key.as_str(), "aotu_dir") {
        request.auto_dir = match parse_unsigned(value.as_str(), u32::MAX as u64) {
            Some(n) => n != 0,
            None => false,
        };
    } else if same_text(key.as_str(), "pl_name") && value.as_str().unicode_len() > 0 {
        request.name = Some(value);
    }
}

fn settings_of(line: &str) -> (r: String)
    requires
        line@.len() > 0,
    ensures
        r@ == settings_text(line@),
{
    let chars = to_chars(line);
    let n: usize = chars.len();
    let rest = slice_text(&chars, 1, n);
    assert(rest@ =~= line@.drop_first());
    let text = trim(rest.as_str());
    if starts_with(text.as_str(), "info=") {
        proof {
            reveal_strlit("info=");
        }
        let inner = to_chars(text.as_str());
        let m: usize = inner.len();
        let behind = slice_text(&inner, 5, m);
        assert(behind@ =~= text@.skip("info="@.len() as int));
        trim(behind.as_str())
    } else {
        text
    }
}

/// What a text asks for.
pub fn list_st(st: &str) -> (r: Option<PlaylistRequest>)
    ensures
        r is Some <==> requested(st@) is Some,
        r matches Some(request) ==> Some(request@) == requested(st@),
{
    let mut request = PlaylistRequest {
        files: Vec::new(),
        play_mode: 0,
        volume: 100,
        pos: 0,
        auto_dir: false,
        name: None,
    };
    assert(request@ =~= Request::plain());
    if !starts_with(st, "@") {
        request.files = list_files(st);
        return Some(request);
    }
    let (line, list) = match split_once(st, "\n") {
        Some((line, list)) => (line, list),
        None => return None,
    };
    proof {
        reveal_strlit("@");
        reveal_strlit("\n");
        let at = crate::text::find_text_from(st@, "\n"@, 0);
        assert(occurs_at(st@, "@"@, 0));
        assert(st@.subrange(0, 1)[0] == "@"@[0]);
        assert(!occurs_at(st@, "\n"@, 0)) by {
            if occurs_at(st@, "\n"@, 0) {
                assert(st@.subrange(0, 1)[0] == "\n"@[0]);
            }
        }
        lemma_found_not_before(st@, "\n"@, 0);
        assert(at >= 1);
        assert(line@ == st@.take(at));
    }
    let text = settings_of(line.as_str());
    let settings = split(text.as_str(), ',');
    let ghost views = pieces(text@, ',');
    assert(text_views(settings@) =~= views);
    let ghost plain = request@;
    let mut i: usize = 0;
    while i < settings.len()
        invariant
            i <= settings@.len(),
            text_views(settings@) == views,
            request@ == plain.with_settings(views.take(i as int)),
        decreases settings@.len() - i,
    {
        proof {
            assert(views.take(i + 1).drop_last() =~= views.take(i as int));
            assert(views.take(i + 1).last() == settings@[i as int]@);
        }
        take_setting(&mut request, settings[i].as_str());
        i += 1;
    }
    assert(views.take(settings@.len() as int) =~= views);
    request.files = list_files(list.as_str());
    Some(request)
}

proof fn lemma_found_not_before(s: Seq<char>, part: Seq<char>, from: int)
    requires
        0 <= from <= s.len(),
        !occurs_at(s, part, from),
    ensures
        crate::text::find_text_from(s, part, from) > from,
    decreases s.len() - from,
{
    reveal_with_fuel(crate::text::find_text_from, 2);
    if from + 1 <= s.len() && !occurs_at(s, part, from + 1) {
        lemma_found_not_before(s, part, from + 1);
    }
}

/// What the player makes of a playlist that was sent.
pub struct Delivery {
    /// The songs of the playlist, at least one.
    pub files: Vec<String>,
    /// The song whose directory is read afterwards.
    pub auto_dir_path: Option<String>,
    pub play_mode: usize,
    pub volume: u32,
    pub name: String,
    pub track: usize,
}

/// The place of the song to start with; neither zero nor a number beyond the end
/// is refused.
pub open spec fn start_place(pos: int, len: int) -> int {
    let wanted = if pos > 0 {
        pos - 1
    } else {
        0
    };
    if wanted < len {
        wanted
    } else {
        len - 1
    }
}

/// The mode of the player that stands for the mode of a request.
pub open spec fn delivered_mode(play_mode: u8) -> usize {
    if play_mode == 1 {
        1
    } else if play_mode == 2 {
        0
    } else {
        2
    }
}

/// The name of the playlist that takes the songs.
pub open spec fn delivered_name(name: Option<Seq<char>>) -> Seq<char> {
    match name {
        Some(n) => if trimmed(n).len() > 0 {
            trimmed(n)
        } else {
            PLAYLIST_NAME_USER@
        },
        None => PLAYLIST_NAME_USER@,
    }
}

/// What the player makes of a playlist that was sent; nothing of an empty one.
pub fn deliver_playlist(request: PlaylistRequest) -> (r: Option<Delivery>)
    ensures
        r is Some <==> request@.files.len() > 0,
        r matches Some(d) ==> {
            let start = start_place(request.pos as int, request@.files.len() as int);
            &&& request.auto_dir ==> text_views(d.files@) == seq![request@.files[start]]
                && d.auto_dir_path is Some && d.auto_dir_path->0@ == request@.files[start]
                && d.track == 0
            &&& !request.auto_dir ==> text_views(d.files@) == request@.files && d.auto_dir_path is None
                && d.track == start
            &&& d.play_mode == delivered_mode(request.play_mode)
            &&& d.volume == (if request.volume < 100 {
                request.volume as u32
            } else {
                100
            })
            &&& d.name@ == delivered_name(request@.name)
        },
{
    let n: usize = request.files.len();
    if n == 0 {
        return None;
    }
    let wanted: usize = if request.pos > 0 {
        request.pos - 1
    } else {
        0
    };
    let start: usize = if wanted < n {
        wanted
    } else {
        n - 1
    };
    let volume: u32 = if request.volume < 100 {
        request.volume as u32
    } else {
        100
    };
    let play_mode: usize = match request.play_mode {
        1 => 1,
        2 => 0,
        _ => 2,
    };
    let name: String = match &request.name {
        Some(given) => {
            let inner = trim(given.as_str());
            if inner.as_str().unicode_len() > 0 {
                inner
            } else {
                PLAYLIST_NAME_USER.to_owned()
            }
        },
        None => PLAYLIST_NAME_USER.to_owned(),
    };
    if request.auto_dir {
        let path: String = request.files[start].clone();
        let mut files: Vec<String> = Vec::new();
        files.push(path.clone());
        assert(text_views(files@) =~= seq![request@.files[start as int]]);
        Some(
            Delivery { files, auto_dir_path: Some(path), play_mode, volume, name, track: 0 },
        )
    } else {
        Some(
            Delivery {
                files: request.files,
                auto_dir_path: None,
                play_mode,
                volume,
                name,
                track: start,
            },
        )
    }
}

/// The controls when a list was delivered; without a number it is not the active one yet.
pub open spec fn delivered(
    c: Controls,
    play_mode: usize,
    volume: u32,
    track: usize,
    id: Option<usize>,
) -> Controls {
    match id {
        Some(id) => Controls {
            play_mode,
            to_volume: volume,
            list_id: id,
            track,
            list_changed: true,
            to_next: false,
            to_prev: false,
            ..c
        },
        None => Controls { play_mode, to_volume: volume, ..c },
    }
}

impl PlayerControls {
    /// Takes over a playlist that was sent. `id` is the playlist that holds its
    /// songs now; where none could be had, only the mode and the volume change.
    /// The result says whether the volume changed.
    pub fn deliver(&mut self, delivery: &Delivery, id: Option<usize>) -> (volume_changed: bool)
        ensures
            volume_changed == (old(self).to_volume != delivery.volume),
            final(self)@ == delivered(
                old(self)@,
                delivery.play_mode,
                delivery.volume,
                delivery.track,
                id,
            ),
    {
        let volume_changed: bool = self.to_volume != delivery.volume;
        self.play_mode = delivery.play_mode;
        self.to_volume = delivery.volume;
        if let Some(id) = id {
            self.list_id = id;
            self.track = delivery.track;
            self.list_changed = true;
            self.to_next = false;
            self.to_prev = false;
        }
        volume_changed
    }
}

/// Whatever number a request names, the song to start with is one of the list.
pub proof fn law_start_place_is_in_the_list(pos: int, len: int)
    requires
        len > 0,
    ensures
        0 <= start_place(pos, len) < len,
        1 <= pos <= len ==> start_place(pos, len) == pos - 1,
{
}

/// No file of a request is an empty text.
pub proof fn law_listed_files_are_not_empty(lines: Seq<Seq<char>>)
    ensures
        kept_lines(lines).len() <= lines.len(),
        forall|i: int| 0 <= i < kept_lines(lines).len() ==> (#[trigger] kept_lines(lines)[i]).len() > 0,
    decreases lines.len(),
{
    if lines.len() > 0 {
        law_listed_files_are_not_empty(lines.drop_last());
        let front = kept_lines(lines.drop_last());
        assert forall|i: int| 0 <= i < kept_lines(lines).len() implies (#[trigger] kept_lines(
            lines,
        )[i]).len() > 0 by {
            if i < front.len() {
                assert(kept_lines(lines)[i] == front[i]);
            }
        }
    }
}

/// What bytes that were sent ask for: they have to be as many as were announced, and
/// UTF-8.
pub open spec fn received_request(bytes: Seq<u8>, announced: int) -> Option<Request> {
    if bytes.len() == announced && valid_utf8(bytes) {
        requested(trimmed(decode_utf8(bytes)))
    } else {
        None
    }
}

/// What bytes that were sent ask for.
pub fn serve_receive(bytes: &[u8], announced: u32) -> (r: Option<PlaylistRequest>)
    ensures
        r is Some <==> received_request(bytes@, announced as int) is Some,
        r matches Some(request) ==> Some(request@) == received_request(bytes@, announced as int),
{
    if bytes.len() as u64 != announced as u64 {
        return None;
    }
    match utf8_text(bytes) {
        Some(text) => {
            let inner = trim(text.as_str());
            list_st(inner.as_str())
        },
        None => None,
    }
}

/// A list of files is the lines of a text, each without the space around it and without null
/// characters, in their order; empty lines are left out.
pub proof fn law_lines_are_the_files(lines: Seq<Seq<char>>, line: Seq<char>)
    ensures
        kept_lines(Seq::empty()).len() == 0,
        line_text(line).len() > 0 ==> kept_lines(lines.push(line)) == kept_lines(lines).push(
            line_text(line),
        ),
        line_text(line).len() == 0 ==> kept_lines(lines.push(line)) == kept_lines(lines),
        line.len() > 0 && trimmed(line) == line && line[0] != '\0' && line.last() != '\0'
            ==> line_text(line) == line,
{
    assert(lines.push(line).drop_last() =~= lines);
}

/// A setting changes what it names to what it says, and nothing else; one that is not known
/// changes nothing.
pub proof fn law_setting_changes_what_it_names(r: Request, value: Seq<char>, n: nat)
    ensures
        r.with_value("play_mode"@, "rand"@) == (Request { play_mode: 1, ..r }),
        r.with_value("play_mode"@, "single"@) == (Request { play_mode: 2, ..r }),
        value != "rand"@ && value != "single"@ ==> r.with_value("play_mode"@, value) == (Request {
            play_mode: 0,
            ..r
        }),
        n <= 255 ==> r.with_value("volume"@, decimal(n)) == (Request { volume: n as u8, ..r }),
        n > 255 ==> r.with_value("volume"@, decimal(n)) == (Request { volume: 80, ..r }),
        n <= usize::MAX ==> r.with_value("pos"@, decimal(n)) == (Request { pos: n as usize, ..r }),
        n <= u32::MAX ==> r.with_value("auto_dir"@, decimal(n)) == (Request {
            auto_dir: n != 0,
            ..r
        }),
        value.len() > 0 ==> r.with_value("pl_name"@, value) == (Request { name: Some(value), ..r }),
        r.with_value("colour"@, value) == r,
{
    reveal_strlit("play_mode");
    reveal_strlit("volume");
    reveal_strlit("pos");
    reveal_strlit("auto_dir");
    reveal_strlit("aotu_dir");
    reveal_strlit("pl_name");
    reveal_strlit("colour");
    reveal_strlit("rand");
    reveal_strlit("single");
    law_unsigned_reads_decimals(n, 255);
    law_unsigned_reads_decimals(n, usize::MAX as int);
    law_unsigned_reads_decimals(n, u32::MAX as int);
    assert("play_mode"@.len() == 9 && "volume"@.len() == 6 && "pos"@.len() == 3 && "auto_dir"@.len()
        == 8 && "aotu_dir"@.len() == 8 && "pl_name"@.len() == 7 && "colour"@.len() == 6);
    assert("colour"@[0] == 'c' && "volume"@[0] == 'v');
    assert("rand"@.len() == 4 && "single"@.len() == 6);
}

/// The digits of a number are read as that number up to a limit, with a plus sign or without
/// one, and nothing else is read.
pub proof fn law_unsigned_reads_decimals(n: nat, limit: int)
    requires
        limit >= 0,
    ensures
        n <= limit ==> unsigned_value(decimal(n), limit) == Some(n as int),
        n <= limit ==> unsigned_value(seq!['+'] + decimal(n), limit) == Some(n as int),
        n > limit ==> unsigned_value(decimal(n), limit) is None,
        unsigned_value(Seq::empty(), limit) is None,
        unsigned_value(seq!['-'] + decimal(n), limit) is None,
{
    law_decimal_round_trips(n);
    let d = decimal(n);
    lemma_all_digits(d);
    assert(is_digit(d[0]));
    assert((seq!['+'] + d).drop_first() =~= d);
    let minus = seq!['-'] + d;
    assert(minus[0] == '-');
    assert(leading_digits(minus) == 0);
}

proof fn lemma_all_digits(s: Seq<char>)
    requires
        forall|i: int| 0 <= i < s.len() ==> is_digit(#[trigger] s[i]),
    ensures
        leading_digits(s) == s.len(),
    decreases s.len(),
{
    if s.len() > 0 {
        assert(is_digit(s[0]));
        let rest = s.drop_first();
        assert forall|i: int| 0 <= i < rest.len() implies is_digit(#[trigger] rest[i]) by {
            assert(is_digit(s[i + 1]));
        }
        lemma_all_digits(rest);
    }
}

/// A text is a list of files, unless it begins with the sign of a line of settings: then the
/// list is what stands behind that line.
pub proof fn law_settings_stand_in_front_of_the_list(s: Seq<char>)
    ensures
        s.len() == 0 || s[0] != '@' ==> requested(s) is Some && requested(s)->0.files
            == listed_files(s) && requested(s)->0.volume == 100 && requested(s)->0.pos == 0
            && requested(s)->0.play_mode == 0 && !requested(s)->0.auto_dir && requested(s)->0.name
            is None,
        s.len() > 0 && s[0] == '@' && split_once_at(s, "\n"@) is None ==> requested(s) is None,
        s.len() > 0 && s[0] == '@' && split_once_at(s, "\n"@) is Some ==> requested(s) is Some
            && requested(s)->0.files == listed_files((split_once_at(s, "\n"@)->0).1),
{
    reveal_strlit("@");
    assert("@"@ =~= seq!['@']);
    if s.len() > 0 && s[0] == '@' {
        assert(s.subrange(0, 1) =~= seq!['@']);
    }
    if occurs_at(s, "@"@, 0) {
        assert(s.subrange(0, 1)[0] == s[0]);
    }
}

/// Later settings are heard over earlier ones.
pub proof fn law_settings_are_heard_in_order(r: Request, settings: Seq<Seq<char>>, more: Seq<char>)
    ensures
        r.with_settings(Seq::empty()) == r,
        r.with_settings(settings.push(more)) == r.with_settings(settings).with_setting(more),
{
    assert(settings.push(more).drop_last() =~= settings);
}

/// The modes of a request: at random, one song over and over, or else one after the other.
pub proof fn law_delivered_mode_is_the_requested_one(play_mode: u8)
    ensures
        crate::player_state::play_mode_of(delivered_mode(1))
            == crate::player_state::PlayMode::Shuffle,
        crate::player_state::play_mode_of(delivered_mode(2))
            == crate::player_state::PlayMode::Single,
        play_mode != 1 && play_mode != 2 ==> crate::player_state::play_mode_of(
            delivered_mode(play_mode),
        ) == crate::player_state::PlayMode::Sequential,
{
}

/// A list has the name that was asked for, without the space around it, or the common one.
pub proof fn law_delivered_name(name: Seq<char>)
    ensures
        trimmed(name).len() > 0 ==> delivered_name(Some(name)) == trimmed(name),
        trimmed(name).len() == 0 ==> delivered_name(Some(name)) == delivered_name(None),
        delivered_name(None) == "用户"@,
{
}

/// A request is read where all its bytes came and they are UTF-8.
pub proof fn law_request_is_read_as_a_whole(text: Seq<char>, announced: int)
    ensures
        announced == encode_utf8(text).len() ==> received_request(encode_utf8(text), announced)
            == requested(trimmed(text)),
        announced != encode_utf8(text).len() ==> received_request(encode_utf8(text), announced)
            is None,
{
    vstd::utf8::encode_utf8_valid_utf8(text);
    vstd::utf8::encode_utf8_decode_utf8(text);
}

/// The settings of a request stand behind its sign, with a word in front of them or without.
pub proof fn law_settings_stand_behind_the_sign(settings: Seq<char>)
    requires
        settings.len() > 0,
        trimmed(settings) == settings,
        trimmed("info="@ + settings) == "info="@ + settings,
        !occurs_at(settings, "info="@, 0),
    ensures
        settings_text(seq!['@'] + settings) == settings,
        settings_text(seq!['@'] + "info="@ + settings) == settings,
{
    assert((seq!['@'] + settings).drop_first() =~= settings);
    let word = "info="@;
    assert((seq!['@'] + word + settings).drop_first() =~= word + settings);
    assert((word + settings).subrange(0, word.len() as int) =~= word);
    assert((word + settings).skip(word.len() as int) =~= settings);
}

/// A list that is delivered is played at once, from the song that was asked for and in the
/// mode and volume that came with it.
pub proof fn law_delivered_list_is_played(
    c: Controls,
    play_mode: usize,
    volume: u32,
    track: usize,
    id: usize,
)
    ensures
        ({
            let after = delivered(c, play_mode, volume, track, Some(id));
            &&& after.list_id == id && after.track == track && after.aborts()
            &&& after.play_mode == play_mode && after.to_volume == volume
            &&& !after.to_next && !after.to_prev && after.state == c.state
        }),
        ({
            let after = delivered(c, play_mode, volume, track, None);
            &&& after.list_id == c.list_id && after.track == c.track && after.list_changed
                == c.list_changed
            &&& after.play_mode == play_mode && after.to_volume == volume
        }),
{
}

} // verus!
