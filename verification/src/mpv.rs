//! The audio engine: an `mpv` process that is spoken to in JSON, one value on a line.
use crate::double::{
    clamped, is_whole_number, magnitude, small_whole_number_is_exact, Double, EXACT_LIMIT, INFINITY,
    SIGN,
};
use crate::entries::same_text;
use crate::json::{
    array_value, bool_of, double_bits, double_of, field, fields_of, get_field, is_flat,
    is_printable, is_scalar, items_of, json, json_read, json_text, jsons, object_value, read_json,
    reads_back, reads_whole, text_field, text_of, text_value, unsigned_value, write_json, Json,
    Number,
};
use crate::path::{
    file_name, is_plain_name, joined, joined_path_is_in_the_directory,
    joined_paths_differ_by_their_parts, parent, same_path, FilePath,
};
use crate::text::{
    decimal, decimal_is_made_of_digits, decimal_reads_back, is_white_space, lossy,
    push_decimal, trim_text, trimmed, trimming_takes_the_ends_off,
};
use vstd::prelude::*;
use vstd::string::*;
use vstd::utf8::*;

verus! {

// ---------------------------------------------------------------------------
// What the engine reports
// ---------------------------------------------------------------------------

/// What is known of the engine.
#[derive(Clone, Copy, PartialEq, Eq, Structural)]
pub struct MpvState {
    /// The position in the track, in seconds.
    pub time_pos: Double,
    /// The length of the track, in seconds.
    pub duration: Double,
    /// The volume, in percent.
    pub volume: Double,
    pub paused: bool,
    pub idle: bool,
}

/// The bits of zero.
pub const ZERO: u64 = 0;

/// The bits of three.
pub const THREE: u64 = 0x4008_0000_0000_0000;

/// The bits of a hundred.
pub const HUNDRED: u64 = 0x4059_0000_0000_0000;

/// What is known of an engine that has just been started.
pub open spec fn fresh_state() -> MpvState {
    MpvState {
        time_pos: Double { bits: ZERO },
        duration: Double { bits: ZERO },
        volume: Double { bits: HUNDRED },
        paused: false,
        idle: true,
    }
}

/// A volume kept between zero and a hundred percent.
pub open spec fn allowed_volume(v: Double) -> Double {
    clamped(v, Double { bits: ZERO }, Double { bits: HUNDRED })
}

/// A property of the engine that the player watches.
#[derive(Clone, Copy, PartialEq, Eq, Structural)]
pub enum Property {
    TimePos,
    Duration,
    Volume,
    Pause,
    IdleActive,
}

/// The name of a property.
pub open spec fn property_name(p: Property) -> Seq<char> {
    match p {
        Property::TimePos => "time-pos"@,
        Property::Duration => "duration"@,
        Property::Volume => "volume"@,
        Property::Pause => "pause"@,
        Property::IdleActive => "idle-active"@,
    }
}

/// The property with a name.
pub open spec fn property_named(name: Seq<char>) -> Option<Property> {
    if name == "time-pos"@ {
        Some(Property::TimePos)
    } else if name == "duration"@ {
        Some(Property::Duration)
    } else if name == "volume"@ {
        Some(Property::Volume)
    } else if name == "pause"@ {
        Some(Property::Pause)
    } else if name == "idle-active"@ {
        Some(Property::IdleActive)
    } else {
        None
    }
}

/// The state when a property has changed to a number or a truth value. What is not of the
/// property's kind changes nothing.
pub open spec fn with_property(s: MpvState, p: Property, number: Option<u64>, flag: Option<bool>) -> MpvState {
    match (p, number, flag) {
        (Property::TimePos, Some(bits), _) => MpvState { time_pos: Double { bits }, ..s },
        (Property::Duration, Some(bits), _) => MpvState { duration: Double { bits }, ..s },
        (Property::Volume, Some(bits), _) => MpvState { volume: Double { bits }, ..s },
        (Property::Pause, _, Some(b)) => MpvState { paused: b, ..s },
        (Property::IdleActive, _, Some(b)) => MpvState { idle: b, ..s },
        _ => s,
    }
}

/// The state when the engine has said a value: the event of a changed property changes it.
pub open spec fn after_event(s: MpvState, v: Json) -> MpvState {
    if text_of(field(v, "event"@)) == Some("property-change"@) {
        match text_of(field(v, "name"@)) {
            Some(name) => match property_named(name) {
                Some(p) => with_property(
                    s,
                    p,
                    double_of(field(v, "data"@)),
                    bool_of(field(v, "data"@)),
                ),
                None => s,
            },
            None => s,
        }
    } else {
        s
    }
}

/// The state when the engine has written a text. What is no JSON value changes nothing.
pub open spec fn after_text(s: MpvState, text: Seq<char>) -> MpvState {
    if text.len() == 0 {
        s
    } else {
        match json_read(text) {
            Ok(v) => after_event(s, v),
            Err(_) => s,
        }
    }
}

/// The state when the engine has written a line.
pub open spec fn after_line(s: MpvState, line: Seq<char>) -> MpvState {
    after_text(s, trimmed(line))
}

impl Property {
    /// The name of this property.
    pub fn name(&self) -> (r: &'static str)
        ensures
            r@ == property_name(*self),
    {
        match self {
            Property::TimePos => "time-pos",
            Property::Duration => "duration",
            Property::Volume => "volume",
            Property::Pause => "pause",
            Property::IdleActive => "idle-active",
        }
    }

    /// The property with a name.
    pub fn named(name: &str) -> (r: Option<Property>)
        ensures
            r == property_named(name@),
    {
        if same_text(name, "time-pos") {
            Some(Property::TimePos)
        } else if same_text(name, "duration") {
            Some(Property::Duration)
        } else if same_text(name, "volume") {
            Some(Property::Volume)
        } else if same_text(name, "pause") {
            Some(Property::Pause)
        } else if same_text(name, "idle-active") {
            Some(Property::IdleActive)
        } else {
            None
        }
    }
}

impl MpvState {
    /// What is known of an engine that has just been started.
    pub fn new() -> (r: MpvState)
        ensures
            r == fresh_state(),
    {
        MpvState {
            time_pos: Double { bits: ZERO },
            duration: Double { bits: ZERO },
            volume: Double { bits: HUNDRED },
            paused: false,
            idle: true,
        }
    }

    /// Takes note that a property has changed to a number, given by the bits of a double, or
    /// to a truth value.
    pub fn set_property(&mut self, p: Property, number: Option<u64>, flag: Option<bool>)
        ensures
            *final(self) == with_property(*old(self), p, number, flag),
    {
        match p {
            Property::TimePos => if let Some(bits) = number {
                self.time_pos = Double { bits };
            },
            Property::Duration => if let Some(bits) = number {
                self.duration = Double { bits };
            },
            Property::Volume => if let Some(bits) = number {
                self.volume = Double { bits };
            },
            Property::Pause => if let Some(b) = flag {
                self.paused = b;
            },
            Property::IdleActive => if let Some(b) = flag {
                self.idle = b;
            },
        }
    }

    /// Takes note of a value that the engine has said.
    pub fn apply_event(&mut self, v: &serde_json::Value)
        ensures
            *final(self) == after_event(*old(self), json(*v)),
    {
        let event: Option<String> = text_field(v, "event");
        let is_change: bool = match event {
            Some(e) => same_text(e.as_str(), "property-change"),
            None => false,
        };
        if !is_change {
            return;
        }
        if let Some(name) = text_field(v, "name") {
            if let Some(p) = Property::named(name.as_str()) {
                let (number, flag): (Option<u64>, Option<bool>) = match get_field(v, "data") {
                    Some(data) => (double_bits(data), data.as_bool()),
                    None => (None, None),
                };
                self.set_property(p, number, flag);
            }
        }
    }

    /// Takes note of a line that the engine has written.
    pub fn apply_line(&mut self, line: &str)
        ensures
            *final(self) == after_line(*old(self), line@),
    {
        let text: &str = trim_text(line);
        if text.is_empty() {
            return;
        }
        if let Ok(v) = read_json(text) {
            self.apply_event(&v);
        }
    }

    /// Sets the volume, as far as it is allowed, and gives the volume that was set.
    pub fn set_volume(&mut self, v: Double) -> (r: Double)
        ensures
            r == allowed_volume(v),
            *final(self) == (MpvState { volume: r, ..*old(self) }),
    {
        let vol: Double = v.clamp(Double { bits: ZERO }, Double { bits: HUNDRED });
        self.volume = vol;
        vol
    }
}

/// A volume that is a number ends up between zero and a hundred percent.
pub proof fn volume_is_in_bounds(v: Double)
    requires
        !crate::double::is_nan(v),
    ensures
        !crate::double::less(allowed_volume(v), Double { bits: ZERO }),
        !crate::double::less(Double { bits: HUNDRED }, allowed_volume(v)),
{
    crate::double::clamped_is_in_bounds(v, Double { bits: ZERO }, Double { bits: HUNDRED });
}

/// Each watched property has a name of its own.
pub proof fn property_names_are_distinct(p: Property)
    ensures
        property_named(property_name(p)) == Some(p),
{
    reveal_strlit("time-pos");
    reveal_strlit("duration");
    reveal_strlit("volume");
    reveal_strlit("pause");
    reveal_strlit("idle-active");
    assert("time-pos"@[0] == 't');
    assert("duration"@[0] == 'd');
    assert("volume"@[0] == 'v');
    assert("pause"@[0] == 'p');
    assert("idle-active"@[0] == 'i');
}

/// The event in which the engine reports that a property has changed.
pub open spec fn change_event(p: Property, data: Json) -> Json {
    Json::Object(
        Map::empty().insert("event"@, Json::Text("property-change"@)).insert(
            "name"@,
            Json::Text(property_name(p)),
        ).insert("data"@, data),
    )
}

/// The report of a changed property is taken note of.
pub proof fn report_is_noted(s: MpvState, p: Property, data: Json)
    ensures
        after_event(s, change_event(p, data)) == with_property(s, p, double_of(Some(data)), bool_of(Some(data))),
{
    reveal_strlit("event");
    reveal_strlit("name");
    reveal_strlit("data");
    assert("event"@[0] == 'e');
    assert("name"@[0] == 'n');
    assert("data"@[0] == 'd');
    property_names_are_distinct(p);
}

/// A whole number that is small enough to be a double is taken note of as it is.
pub proof fn reported_whole_number_is_exact(s: MpvState, p: Property, n: u64)
    requires
        n <= EXACT_LIMIT,
    ensures
        ({
            let after = after_event(s, change_event(p, Json::Number(Number::Unsigned(n))));
            &&& p == Property::TimePos ==> is_whole_number(after.time_pos, n as int)
            &&& p == Property::Duration ==> is_whole_number(after.duration, n as int)
            &&& p == Property::Volume ==> is_whole_number(after.volume, n as int)
        }),
{
    report_is_noted(s, p, Json::Number(Number::Unsigned(n)));
    small_whole_number_is_exact(n as int);
}

/// What the engine says of one property does not touch another: the order of two reports does
/// not matter.
pub proof fn reports_do_not_mix(s: MpvState, p: Property, x: Json, q: Property, y: Json)
    requires
        p != q,
    ensures
        after_event(after_event(s, change_event(p, x)), change_event(q, y)) == after_event(
            after_event(s, change_event(q, y)),
            change_event(p, x),
        ),
{
    report_is_noted(s, p, x);
    report_is_noted(s, q, y);
    report_is_noted(after_event(s, change_event(p, x)), q, y);
    report_is_noted(after_event(s, change_event(q, y)), p, x);
}

/// What is no report of a property that is watched changes nothing: another event, a property
/// with another name, or a value of another kind.
pub proof fn other_events_change_nothing(s: MpvState, v: Json)
    requires
        ({
            let data = field(v, "data"@);
            ||| text_of(field(v, "event"@)) != Some("property-change"@)
            ||| text_of(field(v, "name"@)) is None
            ||| property_named(text_of(field(v, "name"@))->0) is None
            ||| double_of(data) is None && bool_of(data) is None
        }),
    ensures
        after_event(s, v) == s,
{
}

// ---------------------------------------------------------------------------
// What the engine is told
// ---------------------------------------------------------------------------

/// A command to the engine. Numbers that need not be whole are given by their JSON text.
pub enum Command {
    /// Report each change of a property, under a number.
    Observe(u64, Property),
    /// Play a file in place of the one that is playing.
    LoadFile(FilePath),
    /// Pause, or go on.
    CyclePause,
    Stop,
    /// Set the volume, in percent.
    SetVolume(String),
    /// Go forward by some seconds, or back where the number is negative.
    Seek(String),
    Quit,
}

/// What a command stands for.
pub enum CommandModel {
    Observe(u64, Property),
    LoadFile(Seq<u8>),
    CyclePause,
    Stop,
    SetVolume(Seq<char>),
    Seek(Seq<char>),
    Quit,
}

impl View for Command {
    type V = CommandModel;

    open spec fn view(&self) -> CommandModel {
        match self {
            Command::Observe(id, p) => CommandModel::Observe(*id, *p),
            Command::LoadFile(path) => CommandModel::LoadFile(path@),
            Command::CyclePause => CommandModel::CyclePause,
            Command::Stop => CommandModel::Stop,
            Command::SetVolume(text) => CommandModel::SetVolume(text@),
            Command::Seek(text) => CommandModel::Seek(text@),
            Command::Quit => CommandModel::Quit,
        }
    }
}

/// The value of a JSON text; of a text that is no JSON, nothing.
pub open spec fn number_json(text: Seq<char>) -> Json {
    match json_read(text) {
        Ok(v) => v,
        Err(_) => Json::Null,
    }
}

/// Whether a text, if it is that of a small whole number, is read as the double that it is.
pub open spec fn whole_is_read(text: Seq<char>) -> bool {
    reads_whole(text, Ok(number_json(text)))
}

/// The words of a command.
pub open spec fn command_words(c: CommandModel) -> Seq<Json> {
    match c {
        CommandModel::Observe(id, p) => seq![
            Json::Text("observe_property"@),
            Json::Number(Number::Unsigned(id)),
            Json::Text(property_name(p)),
        ],
        CommandModel::LoadFile(path) => seq![
            Json::Text("loadfile"@),
            Json::Text(lossy(path)),
            Json::Text("replace"@),
        ],
        CommandModel::CyclePause => seq![Json::Text("cycle"@), Json::Text("pause"@)],
        CommandModel::Stop => seq![Json::Text("stop"@)],
        CommandModel::SetVolume(text) => seq![
            Json::Text("set_property"@),
            Json::Text("volume"@),
            number_json(text),
        ],
        CommandModel::Seek(text) => seq![
            Json::Text("seek"@),
            number_json(text),
            Json::Text("relative"@),
        ],
        CommandModel::Quit => seq![Json::Text("quit"@)],
    }
}

/// A command as a JSON value.
pub open spec fn command_json(c: CommandModel) -> Json {
    Json::Object(Map::empty().insert("command"@, Json::Array(command_words(c))))
}

/// The line that gives a command to the engine.
pub open spec fn command_text(c: CommandModel) -> Seq<char> {
    json_text(command_json(c)).push('\n')
}

/// The value of a JSON text.
pub(crate) fn number_value(text: &str) -> (r: serde_json::Value)
    ensures
        json(r) == number_json(text@),
        whole_is_read(text@),
{
    match read_json(text) {
        Ok(v) => v,
        Err(_) => null_value(),
    }
}

/// The `Default` of `serde_json::Value`, which is `null`.
#[verifier::external_body]
pub(crate) fn null_value() -> (r: serde_json::Value)
    ensures
        json(r) == Json::Null,
{
    serde_json::Value::default()
}

impl Command {
    /// The words of this command.
    fn words(&self) -> (r: Vec<serde_json::Value>)
        ensures
            jsons(r@) == command_words(self@),
            number_in(self@) matches Some(text) ==> whole_is_read(text),
    {
        let mut w: Vec<serde_json::Value> = Vec::new();
        match self {
            Command::Observe(id, p) => {
                w.push(text_value("observe_property"));
                w.push(unsigned_value(*id));
                w.push(text_value(p.name()));
            },
            Command::LoadFile(path) => {
                w.push(text_value("loadfile"));
                let name: String = path.display();
                w.push(text_value(name.as_str()));
                w.push(text_value("replace"));
            },
            Command::CyclePause => {
                w.push(text_value("cycle"));
                w.push(text_value("pause"));
            },
            Command::Stop => {
                w.push(text_value("stop"));
            },
            Command::SetVolume(text) => {
                w.push(text_value("set_property"));
                w.push(text_value("volume"));
                w.push(number_value(text.as_str()));
            },
            Command::Seek(text) => {
                w.push(text_value("seek"));
                w.push(number_value(text.as_str()));
                w.push(text_value("relative"));
            },
            Command::Quit => {
                w.push(text_value("quit"));
            },
        }
        assert(jsons(w@) =~= command_words(self@));
        w
    }

    /// The line that gives this command to the engine. It ends with the only end of line in
    /// it, and what stands before that is read as the command. A number in it that is small and
    /// whole is the double that its text says.
    pub fn line(&self) -> (r: String)
        ensures
            r@ == command_text(self@),
            is_printable(r@.drop_last()),
            reads_back(r@.drop_last(), command_json(self@)),
            number_in(self@) matches Some(text) ==> whole_is_read(text),
    {
        let words: Vec<serde_json::Value> = self.words();
        let mut pairs: Vec<(String, serde_json::Value)> = Vec::new();
        pairs.push(("command".to_owned(), array_value(words)));
        proof {
            reveal_with_fuel(fields_of, 2);
            assert(pairs@.drop_last() =~= Seq::<(String, serde_json::Value)>::empty());
        }
        let v: serde_json::Value = object_value(pairs);
        let mut out: String = write_json(&v);
        let ghost written = out@;
        out.push('\n');
        assert(out@.drop_last() =~= written);
        out
    }
}

/// Whether a JSON text says a double: it is a number that is read as it, or `null` for what is
/// not finite, which JSON has no numbers for.
pub open spec fn says(text: Seq<char>, v: Double) -> bool {
    ||| double_of(Some(number_json(text))) == Some(v.bits)
    ||| magnitude(v) >= INFINITY && number_json(text) is Null
}

/// Whether a JSON text says a double.
fn text_says(text: &str, v: Double) -> (r: bool)
    ensures
        r == says(text@, v),
{
    let value: serde_json::Value = number_value(text);
    let same: bool = match double_bits(&value) {
        Some(bits) => bits == v.bits,
        None => false,
    };
    same || (v.bits % SIGN >= INFINITY && value.is_null())
}

/// The command to set a volume that `text` says; none where it says something else.
pub fn volume_command(v: Double, text: &str) -> (r: Option<Command>)
    ensures
        r is Some <==> says(text@, v),
        r matches Some(c) ==> c@ == CommandModel::SetVolume(text@),
{
    if text_says(text, v) {
        Some(Command::SetVolume(text.to_owned()))
    } else {
        None
    }
}

/// The command to go forward by seconds that `text` says; none where it says something else.
pub fn seek_command(seconds: Double, text: &str) -> (r: Option<Command>)
    ensures
        r is Some <==> says(text@, seconds),
        r matches Some(c) ==> c@ == CommandModel::Seek(text@),
{
    if text_says(text, seconds) {
        Some(Command::Seek(text.to_owned()))
    } else {
        None
    }
}

/// The engine is told the very double that was meant, and `null` where that is not finite.
pub proof fn engine_is_told_the_number(v: Double, text: Seq<char>)
    requires
        says(text, v),
    ensures
        ({
            let volume = command_words(CommandModel::SetVolume(text))[2];
            let seconds = command_words(CommandModel::Seek(text))[1];
            &&& volume == seconds
            &&& double_of(Some(volume)) == Some(v.bits) || magnitude(v) >= INFINITY && volume is Null
            &&& is_scalar(volume)
        }),
{
}

/// The number that is a word of a command.
pub open spec fn number_in(c: CommandModel) -> Option<Seq<char>> {
    match c {
        CommandModel::SetVolume(text) => Some(text),
        CommandModel::Seek(text) => Some(text),
        _ => None,
    }
}

/// Whoever reads the line of a command finds that command, with its words under one key. (A
/// number in it must be given by the JSON text of one, or of `null`.)
pub proof fn command_is_read_back(c: CommandModel, text: Seq<char>)
    requires
        number_in(c) matches Some(n) ==> is_scalar(number_json(n)),
        reads_back(text, command_json(c)),
    ensures
        json_read(text) matches Ok(v) && {
            &&& v == command_json(c)
            &&& items_of(field(v, "command"@)) == Some(command_words(c))
        },
{
    assert(is_flat(Json::Array(command_words(c))));
}

/// The properties that the player watches, in the order in which it asks for them.
pub open spec fn watched() -> Seq<CommandModel> {
    seq![
        CommandModel::Observe(1, Property::TimePos),
        CommandModel::Observe(2, Property::Duration),
        CommandModel::Observe(3, Property::Volume),
        CommandModel::Observe(4, Property::Pause),
        CommandModel::Observe(5, Property::IdleActive),
    ]
}

/// The commands that ask for the properties that the player watches.
pub fn observe_properties() -> (r: Vec<Command>)
    ensures
        r@.map_values(|c: Command| c@) == watched(),
{
    let mut out: Vec<Command> = Vec::new();
    out.push(Command::Observe(1, Property::TimePos));
    out.push(Command::Observe(2, Property::Duration));
    out.push(Command::Observe(3, Property::Volume));
    out.push(Command::Observe(4, Property::Pause));
    out.push(Command::Observe(5, Property::IdleActive));
    assert(out@.map_values(|c: Command| c@) =~= watched());
    out
}

/// The player asks for each property that it understands.
pub proof fn every_property_is_watched(p: Property)
    ensures
        exists|i: int| 0 <= i < watched().len() && #[trigger] watched()[i] == CommandModel::Observe((i + 1) as u64, p),
{
    let i: int = match p {
        Property::TimePos => 0,
        Property::Duration => 1,
        Property::Volume => 2,
        Property::Pause => 3,
        Property::IdleActive => 4,
    };
    assert(watched()[i] == CommandModel::Observe((i + 1) as u64, p));
}

// ---------------------------------------------------------------------------
// Starting the engine
// ---------------------------------------------------------------------------

/// The socket on which the engine listens to a player process.
pub open spec fn socket_of(temp_dir: Seq<u8>, pid: u32) -> Seq<u8> {
    joined(temp_dir, encode_utf8("tuiplay-mpv-"@ + decimal(pid as nat) + ".sock"@))
}

/// The socket on which the engine listens to a player process.
pub fn socket_path(temp_dir: &FilePath, pid: u32) -> (r: FilePath)
    ensures
        r@ == socket_of(temp_dir@, pid),
{
    let mut name: String = "tuiplay-mpv-".to_owned();
    push_decimal(&mut name, pid as u64);
    name.append(".sock");
    temp_dir.join(&FilePath::from_text(name.as_str()))
}

/// What a sequence of paths stands for.
pub open spec fn path_views(s: Seq<FilePath>) -> Seq<Seq<u8>> {
    s.map_values(|p: FilePath| p@)
}

/// What a sequence of strings stands for.
pub open spec fn text_views(s: Seq<String>) -> Seq<Seq<char>> {
    s.map_values(|t: String| t@)
}

/// Where the engine's plugin for media keys may be. Without a home directory the last place
/// is the empty path, where nothing is.
pub open spec fn plugin_places(home: Option<Seq<char>>) -> Seq<Seq<u8>> {
    seq![
        encode_utf8("/usr/lib/mpv/mpris.so"@),
        encode_utf8("/usr/lib64/mpv/mpris.so"@),
        encode_utf8("/usr/local/lib/mpv/mpris.so"@),
        match home {
            Some(h) => joined(encode_utf8(h), encode_utf8(".config/mpv/scripts/mpris.so"@)),
            None => Seq::empty(),
        },
    ]
}

/// Where the engine's plugin for media keys may be.
pub fn plugin_candidates(home: Option<&str>) -> (r: Vec<FilePath>)
    ensures
        path_views(r@) == plugin_places(
            (match home {
                Some(h) => Some(h@),
                None => None,
            }),
        ),
{
    let mut out: Vec<FilePath> = Vec::new();
    out.push(FilePath::from_text("/usr/lib/mpv/mpris.so"));
    out.push(FilePath::from_text("/usr/lib64/mpv/mpris.so"));
    out.push(FilePath::from_text("/usr/local/lib/mpv/mpris.so"));
    let last: FilePath = match home {
        Some(h) => FilePath::from_text(h).join(&FilePath::from_text(".config/mpv/scripts/mpris.so")),
        None => FilePath { bytes: Vec::new() },
    };
    out.push(last);
    assert(path_views(out@) =~= plugin_places(
        (match home {
            Some(h) => Some(h@),
            None => None,
        }),
    ));
    out
}

/// The position of the first place, from `from` on, where there is something.
pub open spec fn first_true(exists_at: Seq<bool>, from: int) -> Option<int>
    decreases exists_at.len() - from,
{
    if from < 0 || from >= exists_at.len() {
        None
    } else if exists_at[from] {
        Some(from)
    } else {
        first_true(exists_at, from + 1)
    }
}

/// The first of some paths where there is something.
pub fn first_existing(paths: &Vec<FilePath>, exists_at: &Vec<bool>) -> (r: Option<FilePath>)
    requires
        paths@.len() == exists_at@.len(),
    ensures
        (match r {
            Some(p) => Some(p@),
            None => None,
        }) == (match first_true(exists_at@, 0) {
            Some(i) => Some(paths@[i]@),
            None => None,
        }),
{
    let mut i: usize = 0;
    while i < paths.len()
        invariant
            paths@.len() == exists_at@.len(),
            i <= paths@.len(),
            first_true(exists_at@, 0) == first_true(exists_at@, i as int),
        decreases paths@.len() - i,
    {
        if exists_at[i] {
            return Some(paths[i].clone());
        }
        i = i + 1;
    }
    None
}

/// The arguments that the engine is started with.
pub open spec fn engine_arguments(socket: Seq<u8>, plugin: Option<Seq<u8>>) -> Seq<Seq<char>> {
    let always = seq![
        "--idle=yes"@,
        "--no-video"@,
        "--no-terminal"@,
        "--no-config"@,
        "--loop-file=no"@,
        "--loop-playlist=no"@,
        "--really-quiet"@,
        "--input-ipc-server="@ + lossy(socket),
    ];
    match plugin {
        Some(p) => always.push("--script="@ + lossy(p)),
        None => always,
    }
}

/// The arguments that the engine is started with.
pub fn spawn_arguments(socket: &FilePath, plugin: Option<&FilePath>) -> (r: Vec<String>)
    ensures
        text_views(r@) == engine_arguments(
            socket@,
            (match plugin {
                Some(p) => Some(p@),
                None => None,
            }),
        ),
{
    let mut out: Vec<String> = Vec::new();
    out.push("--idle=yes".to_owned());
    out.push("--no-video".to_owned());
    out.push("--no-terminal".to_owned());
    out.push("--no-config".to_owned());
    out.push("--loop-file=no".to_owned());
    out.push("--loop-playlist=no".to_owned());
    out.push("--really-quiet".to_owned());
    let mut server: String = "--input-ipc-server=".to_owned();
    let name: String = socket.display();
    server.append(name.as_str());
    out.push(server);
    if let Some(p) = plugin {
        let mut script: String = "--script=".to_owned();
        let file: String = p.display();
        script.append(file.as_str());
        out.push(script);
    }
    assert(text_views(out@) =~= engine_arguments(
        socket@,
        (match plugin {
            Some(p) => Some(p@),
            None => None,
        }),
    ));
    out
}

/// How often the player tries to reach the engine's socket.
pub const CONNECT_TRIES: u32 = 50;

/// How many milliseconds it waits after a try that failed.
pub const CONNECT_WAIT: u64 = 50;

/// The tries to reach a socket that the engine has yet to open.
pub struct Connecting {
    pub failed: u32,
}

impl Connecting {
    /// No try has been made.
    pub fn new() -> (r: Connecting)
        ensures
            r.failed == 0,
    {
        Connecting { failed: 0 }
    }

    /// Whether to try once more.
    pub fn may_try(&self) -> (r: bool)
        ensures
            r == (self.failed < CONNECT_TRIES),
    {
        self.failed < CONNECT_TRIES
    }

    /// Takes note of a try that failed, and says for how many milliseconds to wait.
    pub fn try_failed(&mut self) -> (r: u64)
        requires
            old(self).failed < CONNECT_TRIES,
        ensures
            final(self).failed == old(self).failed + 1,
            r == CONNECT_WAIT,
    {
        self.failed = self.failed + 1;
        CONNECT_WAIT
    }
}

// ---------------------------------------------------------------------------
// What reports and commands come to
// ---------------------------------------------------------------------------

/// Whether a value is a report that a property with a name has changed to a value; it may hold
/// more than that.
pub open spec fn reports(v: Json, name: Seq<char>, data: Json) -> bool {
    v matches Json::Object(fields) && {
        &&& fields.contains_key("event"@) && fields["event"@] == Json::Text("property-change"@)
        &&& fields.contains_key("name"@) && fields["name"@] == Json::Text(name)
        &&& fields.contains_key("data"@) && fields["data"@] == data
    }
}

proof fn lemma_names_are_named()
    ensures
        property_named("time-pos"@) == Some(Property::TimePos),
        property_named("duration"@) == Some(Property::Duration),
        property_named("volume"@) == Some(Property::Volume),
        property_named("pause"@) == Some(Property::Pause),
        property_named("idle-active"@) == Some(Property::IdleActive),
{
    property_names_are_distinct(Property::TimePos);
    property_names_are_distinct(Property::Duration);
    property_names_are_distinct(Property::Volume);
    property_names_are_distinct(Property::Pause);
    property_names_are_distinct(Property::IdleActive);
    reveal_strlit("time-pos");
    reveal_strlit("duration");
    reveal_strlit("volume");
    reveal_strlit("pause");
    reveal_strlit("idle-active");
    assert("time-pos"@[0] == 't');
    assert("duration"@[0] == 'd');
    assert("volume"@[0] == 'v');
    assert("pause"@[0] == 'p');
    assert("idle-active"@[0] == 'i');
}

/// After the report that the engine is paused, or idle, or no more, it is known to be just that,
/// whatever was known before; nothing else changes.
pub proof fn reported_truth_is_known(s: MpvState, v: Json, b: bool)
    ensures
        reports(v, "pause"@, Json::Bool(b)) ==> after_event(s, v) == (MpvState { paused: b, ..s }),
        reports(v, "idle-active"@, Json::Bool(b)) ==> after_event(s, v) == (MpvState { idle: b, ..s }),
{
    lemma_names_are_named();
}

/// After the report of a double, the property has exactly that double, and nothing else changes.
pub proof fn reported_double_is_known(s: MpvState, v: Json, bits: u64)
    ensures
        ({
            let data = Json::Number(Number::Double(bits));
            let d = Double { bits };
            &&& reports(v, "time-pos"@, data) ==> after_event(s, v) == MpvState { time_pos: d, ..s }
            &&& reports(v, "duration"@, data) ==> after_event(s, v) == MpvState { duration: d, ..s }
            &&& reports(v, "volume"@, data) ==> after_event(s, v) == MpvState { volume: d, ..s }
        }),
{
    lemma_names_are_named();
}

/// After the report of a whole number, of either sign, the property has the double that is it,
/// and nothing else changes.
pub proof fn reported_whole_number_is_known(s: MpvState, v: Json, n: u64, m: i64)
    requires
        n <= EXACT_LIMIT,
        -EXACT_LIMIT <= m < 0,
    ensures
        ({
            let after = after_event(s, v);
            let up = Json::Number(Number::Unsigned(n));
            let low = Json::Number(Number::Negative(m));
            &&& reports(v, "time-pos"@, up) ==> is_whole_number(after.time_pos, n as int) && after
                == MpvState { time_pos: after.time_pos, ..s }
            &&& reports(v, "duration"@, up) ==> is_whole_number(after.duration, n as int) && after
                == MpvState { duration: after.duration, ..s }
            &&& reports(v, "volume"@, up) ==> is_whole_number(after.volume, n as int) && after
                == MpvState { volume: after.volume, ..s }
            &&& reports(v, "time-pos"@, low) ==> is_whole_number(after.time_pos, m as int) && after
                == MpvState { time_pos: after.time_pos, ..s }
            &&& reports(v, "duration"@, low) ==> is_whole_number(after.duration, m as int) && after
                == MpvState { duration: after.duration, ..s }
            &&& reports(v, "volume"@, low) ==> is_whole_number(after.volume, m as int) && after
                == MpvState { volume: after.volume, ..s }
        }),
{
    lemma_names_are_named();
    small_whole_number_is_exact(n as int);
    small_whole_number_is_exact(m as int);
}

/// A report of the wrong kind, of a property with another name, or of something that is neither a
/// number nor a truth value, changes nothing; and so does what is no report.
pub proof fn other_reports_change_nothing(s: MpvState, v: Json, name: Seq<char>, data: Json)
    ensures
        reports(v, name, data) && name != "time-pos"@ && name != "duration"@ && name != "volume"@ && name
            != "pause"@ && name != "idle-active"@ ==> after_event(s, v) == s,
        reports(v, name, data) && !(data is Number) && !(data is Bool) ==> after_event(s, v) == s,
        reports(v, "time-pos"@, data) && !(data is Number) ==> after_event(s, v) == s,
        reports(v, "duration"@, data) && !(data is Number) ==> after_event(s, v) == s,
        reports(v, "volume"@, data) && !(data is Number) ==> after_event(s, v) == s,
        reports(v, "pause"@, data) && !(data is Bool) ==> after_event(s, v) == s,
        reports(v, "idle-active"@, data) && !(data is Bool) ==> after_event(s, v) == s,
        !(v is Object) ==> after_event(s, v) == s,
        v matches Json::Object(fields) && (!fields.contains_key("event"@) || !fields.contains_key("name"@)
            || !fields.contains_key("data"@) || fields["event"@] != Json::Text("property-change"@)) ==> after_event(
            s,
            v,
        ) == s,
{
    lemma_names_are_named();
}

/// A line is read without the white space around it; an empty one, and one that is no JSON, says
/// nothing.
pub proof fn line_is_read_without_white_space(s: MpvState, before: Seq<char>, text: Seq<char>, after: Seq<char>)
    requires
        forall|i: int| 0 <= i < before.len() ==> is_white_space(#[trigger] before[i]),
        forall|i: int| 0 <= i < after.len() ==> is_white_space(#[trigger] after[i]),
        text.len() > 0 ==> !is_white_space(text[0]) && !is_white_space(text.last()),
    ensures
        text.len() == 0 ==> after_line(s, before + text + after) == s,
        text.len() > 0 ==> (json_read(text) matches Ok(v) ==> after_line(s, before + text + after) == after_event(s, v)),
        text.len() > 0 ==> (json_read(text) is Err ==> after_line(s, before + text + after) == s),
{
    trimming_takes_the_ends_off(before, text, after);
}

/// Each command is an object with the words of it under one key, spelled as the engine reads them.
pub proof fn commands_are_spelled_out(path: Seq<u8>, id: u64, p: Property, text: Seq<char>)
    ensures
        is_command(command_json(CommandModel::LoadFile(path)), seq!["loadfile"@, lossy(path), "replace"@]),
        is_command(command_json(CommandModel::CyclePause), seq!["cycle"@, "pause"@]),
        is_command(command_json(CommandModel::Stop), seq!["stop"@]),
        is_command(command_json(CommandModel::Quit), seq!["quit"@]),
        command_words(CommandModel::SetVolume(text)).len() == 3,
        command_words(CommandModel::SetVolume(text))[0] == Json::Text("set_property"@),
        command_words(CommandModel::SetVolume(text))[1] == Json::Text("volume"@),
        command_words(CommandModel::Seek(text)).len() == 3,
        command_words(CommandModel::Seek(text))[0] == Json::Text("seek"@),
        command_words(CommandModel::Seek(text))[2] == Json::Text("relative"@),
        command_words(CommandModel::Observe(id, p)).len() == 3,
        command_words(CommandModel::Observe(id, p))[0] == Json::Text("observe_property"@),
        command_words(CommandModel::Observe(id, p))[1] == Json::Number(Number::Unsigned(id)),
        command_words(CommandModel::Observe(id, p))[2] == Json::Text(property_name(p)),
        property_name(Property::TimePos) == "time-pos"@,
        property_name(Property::Duration) == "duration"@,
        property_name(Property::Volume) == "volume"@,
        property_name(Property::Pause) == "pause"@,
        property_name(Property::IdleActive) == "idle-active"@,
        watched().len() == 5,
{
    assert(texts(seq!["loadfile"@, lossy(path), "replace"@]) =~= command_words(CommandModel::LoadFile(path)));
    assert(texts(seq!["cycle"@, "pause"@]) =~= command_words(CommandModel::CyclePause));
    assert(texts(seq!["stop"@]) =~= command_words(CommandModel::Stop));
    assert(texts(seq!["quit"@]) =~= command_words(CommandModel::Quit));
}

/// Texts as JSON values.
pub open spec fn texts(words: Seq<Seq<char>>) -> Seq<Json> {
    words.map_values(|w: Seq<char>| Json::Text(w))
}

/// Whether a value is the command of some words, and holds nothing else.
pub open spec fn is_command(v: Json, words: Seq<Seq<char>>) -> bool {
    v matches Json::Object(fields) && {
        &&& fields.contains_key("command"@)
        &&& fields["command"@] == Json::Array(texts(words))
        &&& forall|k: Seq<char>| #[trigger] fields.contains_key(k) ==> k == "command"@
    }
}

/// The first place where there is something is the one before which there is nothing.
pub proof fn first_true_is_the_first(exists_at: Seq<bool>, from: int)
    requires
        0 <= from,
    ensures
        match first_true(exists_at, from) {
            Some(i) => {
                &&& from <= i < exists_at.len()
                &&& exists_at[i]
                &&& forall|k: int| from <= k < i ==> !#[trigger] exists_at[k]
            },
            None => forall|k: int| from <= k < exists_at.len() ==> !#[trigger] exists_at[k],
        },
    decreases exists_at.len() - from,
{
    if from < exists_at.len() && !exists_at[from] {
        first_true_is_the_first(exists_at, from + 1);
    }
}

/// The engine is told its socket, and a plugin behind that where there is one; the other arguments
/// are always the same.
pub proof fn engine_is_told_socket_and_plugin(socket: Seq<u8>, other: Seq<u8>, plugin: Seq<u8>)
    ensures
        ({
            let plain = engine_arguments(socket, None);
            &&& plain.len() == 8
            &&& plain[7] == "--input-ipc-server="@ + lossy(socket)
            &&& plain.take(7) == engine_arguments(other, None).take(7)
            &&& engine_arguments(socket, Some(plugin)) == plain + seq!["--script="@ + lossy(plugin)]
        }),
{
    assert(engine_arguments(socket, None).take(7) =~= engine_arguments(other, None).take(7));
    assert(engine_arguments(socket, Some(plugin)) =~= engine_arguments(socket, None) + seq![
        "--script="@ + lossy(plugin),
    ]);
}

/// The name of the socket of a process.
pub open spec fn socket_name(pid: u32) -> Seq<char> {
    "tuiplay-mpv-"@ + decimal(pid as nat) + ".sock"@
}

proof fn lemma_socket_name(pid: u32)
    ensures
        is_plain_name(encode_utf8(socket_name(pid))),
        encode_utf8(socket_name(pid)).len() == decimal(pid as nat).len() + 17,
        forall|i: int|
            0 <= i < decimal(pid as nat).len() ==> encode_utf8(socket_name(pid))[i + 12] == #[trigger] decimal(
                pid as nat,
            )[i] as u8,
{
    reveal_strlit("tuiplay-mpv-");
    reveal_strlit(".sock");
    let name = socket_name(pid);
    let n = decimal(pid as nat).len();
    decimal_is_made_of_digits(pid as nat);
    assert forall|i: int| 0 <= i < name.len() implies (#[trigger] name[i] as u32) < 128 && name[i] != '/' by {
        if i < 12 {
            assert(name[i] == "tuiplay-mpv-"@[i]);
        } else if i < 12 + n {
            assert(name[i] == decimal(pid as nat)[i - 12]);
        } else {
            assert(name[i] == ".sock"@[i - 12 - n]);
        }
    }
    assert(is_ascii_chars(name));
    is_ascii_chars_encode_utf8(name);
    let bytes = encode_utf8(name);
    assert forall|i: int| 0 <= i < bytes.len() implies #[trigger] bytes[i] != 47 by {
        assert(bytes[i] == name[i] as u8);
    }
    assert forall|i: int| 0 <= i < n implies bytes[i + 12] == #[trigger] decimal(pid as nat)[i] as u8 by {
        assert(bytes[i + 12] == name[i + 12] as u8);
        assert(name[i + 12] == decimal(pid as nat)[i]);
    }
}

/// The socket lies in the directory for temporary files, and each process has one of its own.
pub proof fn each_process_has_its_socket(dir: Seq<u8>, pid: u32, other: u32)
    ensures
        file_name(socket_of(dir, pid)) == Some(encode_utf8(socket_name(pid))),
        parent(socket_of(dir, pid)) matches Some(p) && same_path(p, dir),
        same_path(socket_of(dir, pid), socket_of(dir, other)) <==> pid == other,
{
    lemma_socket_name(pid);
    lemma_socket_name(other);
    let x = encode_utf8(socket_name(pid));
    let y = encode_utf8(socket_name(other));
    joined_path_is_in_the_directory(dir, x);
    joined_paths_differ_by_their_parts(dir, x, dir, y);
    if x == y {
        encode_utf8_decode_utf8(socket_name(pid));
        encode_utf8_decode_utf8(socket_name(other));
        let a = decimal(pid as nat);
        let b = decimal(other as nat);
        reveal_strlit("tuiplay-mpv-");
        assert(socket_name(pid).subrange(12, 12 + a.len() as int) =~= a);
        assert(socket_name(other).subrange(12, 12 + b.len() as int) =~= b);
        decimal_reads_back(pid as nat);
        decimal_reads_back(other as nat);
    }
}

}
