//! Small closed vocabularies shared by every component: attach modes,
//! actions, protocols, TCP flag sets and the states of a sandbox module.

use crate::text::{
    chars_of, join, join_all, lowercase, same_text, split, split_at_each, string_of, to_lowercase,
    to_uppercase, trim, trimmed, uppercase, views,
};
use vstd::prelude::*;
use vstd::string::StringExecFns;

verus! {

/// How the classifier is attached to an interface.
#[derive(Debug, Clone, Copy, PartialEq, Eq, Structural)]
pub enum XdpMode {
    /// In the driver's receive path.
    Driver,
    /// In the generic receive path, which every interface has.
    Generic,
    /// On the network card itself.
    Offload,
}

impl XdpMode {
    /// The wire number of this mode.
    pub open spec fn code(self) -> u32 {
        match self {
            XdpMode::Driver => 0,
            XdpMode::Generic => 1,
            XdpMode::Offload => 2,
        }
    }

    /// The mode that the lowercase word `word` names.
    pub open spec fn named(word: Seq<char>) -> Option<XdpMode> {
        if word == "driver"@ {
            Some(XdpMode::Driver)
        } else if word == "generic"@ {
            Some(XdpMode::Generic)
        } else if word == "offload"@ {
            Some(XdpMode::Offload)
        } else {
            None
        }
    }

    /// The word for this mode.
    pub open spec fn name(self) -> Seq<char> {
        match self {
            XdpMode::Driver => "driver"@,
            XdpMode::Generic => "generic"@,
            XdpMode::Offload => "offload"@,
        }
    }

    /// The mode with wire number `value`, if there is one.
    pub fn from_u32(value: u32) -> (r: Option<XdpMode>)
        ensures
            r is Some <==> value <= 2,
            r matches Some(m) ==> m.code() == value,
    {
        if value == 0 {
            Some(XdpMode::Driver)
        } else if value == 1 {
            Some(XdpMode::Generic)
        } else if value == 2 {
            Some(XdpMode::Offload)
        } else {
            None
        }
    }

    /// The wire number of this mode.
    pub fn to_u32(&self) -> (r: u32)
        ensures
            r == self.code(),
    {
        match self {
            XdpMode::Driver => 0,
            XdpMode::Generic => 1,
            XdpMode::Offload => 2,
        }
    }

    /// The mode that `word` names, letter for letter.
    pub fn from_word(word: &str) -> (r: Option<XdpMode>)
        ensures
            r == XdpMode::named(word@),
    {
        if same_text(word, "driver") {
            Some(XdpMode::Driver)
        } else if same_text(word, "generic") {
            Some(XdpMode::Generic)
        } else if same_text(word, "offload") {
            Some(XdpMode::Offload)
        } else {
            None
        }
    }

    /// The mode that `s` names, whatever the case of its letters.
    pub fn from_str(s: &str) -> (r: Option<XdpMode>)
        ensures
            r == XdpMode::named(lowercase(s@)),
    {
        let lower = to_lowercase(s);
        XdpMode::from_word(lower.as_str())
    }

    /// The word for this mode.
    pub fn to_str(&self) -> (r: &'static str)
        ensures
            r@ == self.name(),
    {
        match self {
            XdpMode::Driver => "driver",
            XdpMode::Generic => "generic",
            XdpMode::Offload => "offload",
        }
    }
}

/// What the classifier does with a packet that matches a rule.
#[derive(Debug, Clone, Copy, PartialEq, Eq, Structural)]
pub enum ActionType {
    /// Let the packet through.
    Pass,
    /// Drop the packet at ingress.
    Drop,
    /// Forward the packet to another interface.
    Redirect,
    /// Let the packet through; the counters are the point.
    Count,
}

impl ActionType {
    /// The wire number of this action.
    pub open spec fn code(self) -> u8 {
        match self {
            ActionType::Pass => 1,
            ActionType::Drop => 2,
            ActionType::Redirect => 3,
            ActionType::Count => 4,
        }
    }

    /// The action that the lowercase word `word` names.
    pub open spec fn named(word: Seq<char>) -> Option<ActionType> {
        if word == "pass"@ {
            Some(ActionType::Pass)
        } else if word == "drop"@ {
            Some(ActionType::Drop)
        } else if word == "redirect"@ {
            Some(ActionType::Redirect)
        } else if word == "count"@ {
            Some(ActionType::Count)
        } else {
            None
        }
    }

    /// The word for this action.
    pub open spec fn name(self) -> Seq<char> {
        match self {
            ActionType::Pass => "pass"@,
            ActionType::Drop => "drop"@,
            ActionType::Redirect => "redirect"@,
            ActionType::Count => "count"@,
        }
    }

    /// The action with wire number `value`, if there is one.
    pub fn from_u8(value: u8) -> (r: Option<ActionType>)
        ensures
            r is Some <==> 1 <= value <= 4,
            r matches Some(a) ==> a.code() == value,
    {
        if value == 1 {
            Some(ActionType::Pass)
        } else if value == 2 {
            Some(ActionType::Drop)
        } else if value == 3 {
            Some(ActionType::Redirect)
        } else if value == 4 {
            Some(ActionType::Count)
        } else {
            None
        }
    }

    /// The wire number of this action.
    pub fn to_u8(&self) -> (r: u8)
        ensures
            r == self.code(),
    {
        match self {
            ActionType::Pass => 1,
            ActionType::Drop => 2,
            ActionType::Redirect => 3,
            ActionType::Count => 4,
        }
    }

    /// The action that `word` names, letter for letter.
    pub fn from_word(word: &str) -> (r: Option<ActionType>)
        ensures
            r == ActionType::named(word@),
    {
        if same_text(word, "pass") {
            Some(ActionType::Pass)
        } else if same_text(word, "drop") {
            Some(ActionType::Drop)
        } else if same_text(word, "redirect") {
            Some(ActionType::Redirect)
        } else if same_text(word, "count") {
            Some(ActionType::Count)
        } else {
            None
        }
    }

    /// The action that `s` names, whatever the case of its letters.
    pub fn from_str(s: &str) -> (r: Option<ActionType>)
        ensures
            r == ActionType::named(lowercase(s@)),
    {
        let lower = to_lowercase(s);
        ActionType::from_word(lower.as_str())
    }

    /// The word for this action.
    pub fn to_str(&self) -> (r: &'static str)
        ensures
            r@ == self.name(),
    {
        match self {
            ActionType::Pass => "pass",
            ActionType::Drop => "drop",
            ActionType::Redirect => "redirect",
            ActionType::Count => "count",
        }
    }
}

/// The transport protocol that a rule asks for.
#[derive(Debug, Clone, Copy, PartialEq, Eq, Structural)]
pub enum ProtocolType {
    /// ICMP.
    Icmp,
    /// TCP.
    Tcp,
    /// UDP.
    Udp,
    /// Every protocol.
    Any,
}

impl ProtocolType {
    /// The wire number of this protocol.
    pub open spec fn code(self) -> u8 {
        match self {
            ProtocolType::Icmp => 1,
            ProtocolType::Tcp => 6,
            ProtocolType::Udp => 17,
            ProtocolType::Any => 255,
        }
    }

    /// The protocol that the lowercase word `word` names.
    pub open spec fn named(word: Seq<char>) -> Option<ProtocolType> {
        if word == "icmp"@ {
            Some(ProtocolType::Icmp)
        } else if word == "tcp"@ {
            Some(ProtocolType::Tcp)
        } else if word == "udp"@ {
            Some(ProtocolType::Udp)
        } else if word == "any"@ {
            Some(ProtocolType::Any)
        } else {
            None
        }
    }

    /// The word for this protocol.
    pub open spec fn name(self) -> Seq<char> {
        match self {
            ProtocolType::Icmp => "icmp"@,
            ProtocolType::Tcp => "tcp"@,
            ProtocolType::Udp => "udp"@,
            ProtocolType::Any => "any"@,
        }
    }

    /// The protocol with wire number `value`, if there is one.
    pub fn from_u8(value: u8) -> (r: Option<ProtocolType>)
        ensures
            r is Some <==> (value == 1 || value == 6 || value == 17 || value == 255),
            r matches Some(p) ==> p.code() == value,
    {
        if value == 1 {
            Some(ProtocolType::Icmp)
        } else if value == 6 {
            Some(ProtocolType::Tcp)
        } else if value == 17 {
            Some(ProtocolType::Udp)
        } else if value == 255 {
            Some(ProtocolType::Any)
        } else {
            None
        }
    }

    /// The wire number of this protocol.
    pub fn to_u8(&self) -> (r: u8)
        ensures
            r == self.code(),
    {
        match self {
            ProtocolType::Icmp => 1,
            ProtocolType::Tcp => 6,
            ProtocolType::Udp => 17,
            ProtocolType::Any => 255,
        }
    }

    /// The protocol that `word` names, letter for letter.
    pub fn from_word(word: &str) -> (r: Option<ProtocolType>)
        ensures
            r == ProtocolType::named(word@),
    {
        if same_text(word, "icmp") {
            Some(ProtocolType::Icmp)
        } else if same_text(word, "tcp") {
            Some(ProtocolType::Tcp)
        } else if same_text(word, "udp") {
            Some(ProtocolType::Udp)
        } else if same_text(word, "any") {
            Some(ProtocolType::Any)
        } else {
            None
        }
    }

    /// The protocol that `s` names, whatever the case of its letters.
    pub fn from_str(s: &str) -> (r: Option<ProtocolType>)
        ensures
            r == ProtocolType::named(lowercase(s@)),
    {
        let lower = to_lowercase(s);
        ProtocolType::from_word(lower.as_str())
    }

    /// The word for this protocol.
    pub fn to_str(&self) -> (r: &'static str)
        ensures
            r@ == self.name(),
    {
        match self {
            ProtocolType::Icmp => "icmp",
            ProtocolType::Tcp => "tcp",
            ProtocolType::Udp => "udp",
            ProtocolType::Any => "any",
        }
    }
}

/// One occurrence of `word` if `present`, else nothing.
pub open spec fn word_if(present: bool, word: Seq<char>) -> Seq<Seq<char>> {
    if present {
        seq![word]
    } else {
        Seq::empty()
    }
}

/// The names of the flags set in `bits`, in the order FIN, SYN, RST, PSH, ACK, URG.
pub open spec fn flag_names(bits: u8) -> Seq<Seq<char>> {
    word_if(bits & 0x01 != 0, "FIN"@) + word_if(bits & 0x02 != 0, "SYN"@) + word_if(
        bits & 0x04 != 0,
        "RST"@,
    ) + word_if(bits & 0x08 != 0, "PSH"@) + word_if(bits & 0x10 != 0, "ACK"@) + word_if(
        bits & 0x20 != 0,
        "URG"@,
    )
}

/// The flag names of `bits` separated by commas, or `none` where no flag is set.
pub open spec fn flags_text(bits: u8, none: Seq<char>) -> Seq<char> {
    if flag_names(bits).len() == 0 {
        none
    } else {
        join(flag_names(bits), ","@)
    }
}

/// Writes the flag names of `bits` separated by commas, or `none` where no flag is set.
pub fn flags_to_text(bits: u8, none: &str) -> (r: String)
    ensures
        r@ == flags_text(bits, none@),
{
    let mut names: Vec<&str> = Vec::new();
    if bits & 0x01 != 0 {
        names.push("FIN");
    }
    if bits & 0x02 != 0 {
        names.push("SYN");
    }
    if bits & 0x04 != 0 {
        names.push("RST");
    }
    if bits & 0x08 != 0 {
        names.push("PSH");
    }
    if bits & 0x10 != 0 {
        names.push("ACK");
    }
    if bits & 0x20 != 0 {
        names.push("URG");
    }
    assert(views(names@) == flag_names(bits));
    if names.len() == 0 {
        String::from_str(none)
    } else {
        join_all(&names, ",")
    }
}

/// A set of TCP flags, one bit each.
#[derive(Debug, Clone, Copy, PartialEq, Eq, Structural)]
pub struct TcpFlags(pub u8);

impl TcpFlags {
    pub const FIN: u8 = 0x01;

    pub const SYN: u8 = 0x02;

    pub const RST: u8 = 0x04;

    pub const PSH: u8 = 0x08;

    pub const ACK: u8 = 0x10;

    pub const URG: u8 = 0x20;

    /// The bit of the flag that the uppercase word `word` names, or 0.
    pub open spec fn flag_bit(word: Seq<char>) -> u8 {
        if word == "FIN"@ {
            0x01
        } else if word == "SYN"@ {
            0x02
        } else if word == "RST"@ {
            0x04
        } else if word == "PSH"@ {
            0x08
        } else if word == "ACK"@ {
            0x10
        } else if word == "URG"@ {
            0x20
        } else {
            0
        }
    }

    /// The flags that the fields name, each field trimmed and put in upper
    /// case first; a field that names no flag adds nothing.
    pub open spec fn bits_of_fields(fields: Seq<Seq<char>>) -> u8
        decreases fields.len(),
    {
        if fields.len() == 0 {
            0
        } else {
            TcpFlags::bits_of_fields(fields.drop_last()) | TcpFlags::flag_bit(
                uppercase(trim(fields.last())),
            )
        }
    }

    /// The empty set.
    pub fn new() -> (r: TcpFlags)
        ensures
            r.0 == 0,
    {
        TcpFlags(0)
    }

    /// Adds the flags of `flag` to the set.
    pub fn set(&mut self, flag: u8)
        ensures
            final(self).0 == old(self).0 | flag,
    {
        self.0 = self.0 | flag;
    }

    /// Whether the set holds at least one of the flags of `flag`.
    pub fn has(&self, flag: u8) -> (r: bool)
        ensures
            r == (self.0 & flag != 0),
    {
        (self.0 & flag) != 0
    }

    /// The bit of the flag that `word` names, letter for letter, or 0.
    pub fn flag_named(word: &str) -> (r: u8)
        ensures
            r == TcpFlags::flag_bit(word@),
    {
        if same_text(word, "FIN") {
            0x01
        } else if same_text(word, "SYN") {
            0x02
        } else if same_text(word, "RST") {
            0x04
        } else if same_text(word, "PSH") {
            0x08
        } else if same_text(word, "ACK") {
            0x10
        } else if same_text(word, "URG") {
            0x20
        } else {
            0
        }
    }

    /// The flags that `s` lists between commas, whatever the case of their
    /// letters and the white space around them.
    pub fn from_str(s: &str) -> (r: TcpFlags)
        ensures
            r.0 == TcpFlags::bits_of_fields(split(s@, ',')),
    {
        let chars = chars_of(s);
        let fields = split_at_each(&chars, ',');
        let mut flags = TcpFlags::new();
        let ghost all = split(s@, ',');
        let mut i: usize = 0;
        while i < fields.len()
            invariant
                i <= fields.len(),
                fields@.len() == all.len(),
                forall|k: int| 0 <= k < fields@.len() ==> (#[trigger] fields@[k])@ == all[k],
                flags.0 == TcpFlags::bits_of_fields(all.take(i as int)),
            decreases fields.len() - i,
        {
            assert(all.take(i + 1).drop_last() == all.take(i as int));
            assert(all.take(i + 1).last() == fields@[i as int]@);
            let word = string_of(&trimmed(&fields[i]));
            let upper = to_uppercase(word.as_str());
            flags.set(TcpFlags::flag_named(upper.as_str()));
            i += 1;
        }
        assert(all.take(all.len() as int) == all);
        flags
    }

    /// The names of the flags in the set, separated by commas; `NONE` for the empty set.
    pub fn to_str(&self) -> (r: String)
        ensures
            r@ == flags_text(self.0, "NONE"@),
    {
        flags_to_text(self.0, "NONE")
    }
}

/// Where a sandbox module stands in its life.
#[derive(Debug, Clone, Copy, PartialEq, Eq, Structural)]
pub enum WasmModuleState {
    /// Created, nothing loaded yet.
    Initialized,
    /// Compiled and instantiated.
    Loaded,
    /// Loaded and in use.
    Running,
    /// Loaded but set aside.
    Paused,
    /// Loading failed.
    Error,
}

impl WasmModuleState {
    /// The word for this state.
    pub open spec fn name(self) -> Seq<char> {
        match self {
            WasmModuleState::Initialized => "initialized"@,
            WasmModuleState::Loaded => "loaded"@,
            WasmModuleState::Running => "running"@,
            WasmModuleState::Paused => "paused"@,
            WasmModuleState::Error => "error"@,
        }
    }

    /// Whether a module in this state may be handed packets.
    pub open spec fn invocable(self) -> bool {
        self == WasmModuleState::Loaded || self == WasmModuleState::Running
    }

    /// Whether a module in this state may be handed packets.
    pub fn can_invoke(&self) -> (r: bool)
        ensures
            r == self.invocable(),
    {
        match self {
            WasmModuleState::Loaded => true,
            WasmModuleState::Running => true,
            _ => false,
        }
    }

    /// The word for this state.
    pub fn to_str(&self) -> (r: &'static str)
        ensures
            r@ == self.name(),
    {
        match self {
            WasmModuleState::Initialized => "initialized",
            WasmModuleState::Loaded => "loaded",
            WasmModuleState::Running => "running",
            WasmModuleState::Paused => "paused",
            WasmModuleState::Error => "error",
        }
    }
}

} // verus!
