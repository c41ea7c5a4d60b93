//! Command records and how they are read from a property list.
//!
//! Three commands take arguments: `sinout` plays a tone, `input` captures a
//! list of channels, `scope` shows a list of channels. Each is read from a
//! property list whose keys it knows; a key that it does not know is passed
//! over together with its value.

use vstd::prelude::*;
use crate::datum::{for_plist, plist, Datum};
use crate::route::{all_channels, full_route, gain_route, route_of};
use crate::scalar::{Scalar, CONCERT_PITCH_BITS, ONE_BITS};

verus! {

/// Why a command could not be read.
#[derive(Clone, Copy, Debug, PartialEq, Eq, Structural)]
pub enum CommandError {
    /// A list was due: the arguments of a command, or the value of `ch`.
    ListExpected,
    /// The value of `freq`, `ampl` or `dur` is not a number.
    NumberExpected,
    /// A number in the value of `ch` is not an unsigned integer.
    ChannelExpected,
    /// The command's name is a symbol, but not one that is known.
    UnknownCommand,
    /// The command's name is not a symbol.
    BadToken,
}

/// A tone to play.
#[derive(Clone, Debug)]
pub struct CmdSinout {
    /// Frequency in hertz.
    pub freq: Scalar,
    /// Amplitude, a linear factor.
    pub ampl: Scalar,
    /// The gain route: one gain for each hardware channel.
    pub channels: Vec<Scalar>,
    /// Duration in seconds; zero lets the tone run on.
    pub dur: Scalar,
}

/// What a tone command says, with its route as a sequence.
pub struct ToneView {
    pub freq: Scalar,
    pub ampl: Scalar,
    pub route: Seq<Scalar>,
    pub dur: Scalar,
}

impl View for CmdSinout {
    type V = ToneView;

    open spec fn view(&self) -> ToneView {
        ToneView { freq: self.freq, ampl: self.ampl, route: self.channels@, dur: self.dur }
    }
}

/// The hardware channels to capture, in the order in which their samples are
/// to be laid out.
#[derive(Clone, Debug)]
pub struct CmdInput {
    pub channels: Vec<u8>,
}

/// The captured channels to show, in the order in which they are shown.
#[derive(Clone, Debug)]
pub struct CmdScope {
    pub channels: Vec<u8>,
}

/// A command together with its arguments.
#[derive(Clone, Debug)]
pub enum Command {
    Sinout(CmdSinout),
    Input(CmdInput),
}

/// Whether some number in a channel list is not an unsigned integer.
pub open spec fn has_bad_channel(list: Seq<Datum>) -> bool {
    exists|k: int|
        0 <= k < list.len() && (#[trigger] list[k] matches Datum::Number(n) && n.unsigned is None)
}

/// The channel numbers in a channel list, in order: each unsigned integer,
/// cut to its low eight bits. Elements that are not numbers are passed over.
pub open spec fn channels_in(list: Seq<Datum>) -> Seq<u8>
    decreases list.len(),
{
    if list.len() == 0 {
        Seq::empty()
    } else {
        let front = channels_in(list.drop_last());
        match list.last() {
            Datum::Number(n) => match n.unsigned {
                Some(u) => front.push((u % 256) as u8),
                None => front,
            },
            _ => front,
        }
    }
}

/// What is wrong with a value given for `ch`, if anything.
pub open spec fn channel_list_fault(val: Datum) -> Option<CommandError> {
    match val {
        Datum::List(list) => if has_bad_channel(list@) {
            Some(CommandError::ChannelExpected)
        } else {
            None
        },
        _ => Some(CommandError::ListExpected),
    }
}

/// What is wrong with one key/value pair of a tone command, if anything.
pub open spec fn tone_pair_fault(key: Seq<char>, val: Datum) -> Option<CommandError> {
    if key == "freq"@ || key == "ampl"@ || key == "dur"@ {
        if val is Number {
            None
        } else {
            Some(CommandError::NumberExpected)
        }
    } else if key == "ch"@ {
        channel_list_fault(val)
    } else {
        None
    }
}

/// What is wrong with one key/value pair of a capture or scope command, if
/// anything.
pub open spec fn capture_pair_fault(key: Seq<char>, val: Datum) -> Option<CommandError> {
    if key == "ch"@ {
        channel_list_fault(val)
    } else {
        None
    }
}

/// The fault of the first pair of a tone command that has one.
pub open spec fn tone_fault(pairs: Seq<(Seq<char>, Datum)>) -> Option<CommandError>
    decreases pairs.len(),
{
    if pairs.len() == 0 {
        None
    } else {
        match tone_fault(pairs.drop_last()) {
            Some(e) => Some(e),
            None => tone_pair_fault(pairs.last().0, pairs.last().1),
        }
    }
}

/// The fault of the first pair of a capture or scope command that has one.
pub open spec fn capture_fault(pairs: Seq<(Seq<char>, Datum)>) -> Option<CommandError>
    decreases pairs.len(),
{
    if pairs.len() == 0 {
        None
    } else {
        match capture_fault(pairs.drop_last()) {
            Some(e) => Some(e),
            None => capture_pair_fault(pairs.last().0, pairs.last().1),
        }
    }
}

/// The number given last for `key`, or `default` where none is given.
pub open spec fn last_number(pairs: Seq<(Seq<char>, Datum)>, key: Seq<char>, default: Scalar) -> Scalar
    decreases pairs.len(),
{
    if pairs.len() == 0 {
        default
    } else {
        match pairs.last().1 {
            Datum::Number(n) if pairs.last().0 == key => n.single,
            _ => last_number(pairs.drop_last(), key, default),
        }
    }
}

/// All channel numbers given under `ch`, in the order in which they stand.
pub open spec fn listed_channels(pairs: Seq<(Seq<char>, Datum)>) -> Seq<u8>
    decreases pairs.len(),
{
    if pairs.len() == 0 {
        Seq::empty()
    } else {
        let front = listed_channels(pairs.drop_last());
        match pairs.last().1 {
            Datum::List(list) if pairs.last().0 == "ch"@ => front + channels_in(list@),
            _ => front,
        }
    }
}

/// The tone that a `sinout` command with these arguments asks for.
pub open spec fn tone_of(args: Datum) -> Result<ToneView, CommandError> {
    match args {
        Datum::List(items) => {
            let pairs = plist(items@);
            match tone_fault(pairs) {
                Some(e) => Err(e),
                None => Ok(
                    ToneView {
                        freq: last_number(pairs, "freq"@, Scalar { bits: CONCERT_PITCH_BITS }),
                        ampl: last_number(pairs, "ampl"@, Scalar::one()),
                        route: route_of(listed_channels(pairs)),
                        dur: last_number(pairs, "dur"@, Scalar::zero()),
                    },
                ),
            }
        },
        _ => Err(CommandError::ListExpected),
    }
}

/// The channels that an `input` or `scope` command with these arguments
/// names.
pub open spec fn capture_of(args: Datum) -> Result<Seq<u8>, CommandError> {
    match args {
        Datum::List(items) => {
            let pairs = plist(items@);
            match capture_fault(pairs) {
                Some(e) => Err(e),
                None => Ok(listed_channels(pairs)),
            }
        },
        _ => Err(CommandError::ListExpected),
    }
}

/// A fault among the first pairs is a fault of the whole list.
pub proof fn lemma_tone_fault_stays(pairs: Seq<(Seq<char>, Datum)>, n: int)
    requires
        0 <= n <= pairs.len(),
        tone_fault(pairs.take(n)) is Some,
    ensures
        tone_fault(pairs) == tone_fault(pairs.take(n)),
    decreases pairs.len() - n,
{
    if n < pairs.len() {
        assert(pairs.take(n + 1).drop_last() == pairs.take(n));
        lemma_tone_fault_stays(pairs, n + 1);
    } else {
        assert(pairs.take(n) == pairs);
    }
}

/// A fault among the first pairs is a fault of the whole list.
pub proof fn lemma_capture_fault_stays(pairs: Seq<(Seq<char>, Datum)>, n: int)
    requires
        0 <= n <= pairs.len(),
        capture_fault(pairs.take(n)) is Some,
    ensures
        capture_fault(pairs) == capture_fault(pairs.take(n)),
    decreases pairs.len() - n,
{
    if n < pairs.len() {
        assert(pairs.take(n + 1).drop_last() == pairs.take(n));
        lemma_capture_fault_stays(pairs, n + 1);
    } else {
        assert(pairs.take(n) == pairs);
    }
}

/// A pair whose key a tone command does not know changes nothing: with it
/// behind the other pairs, the command has the same fault or the same
/// numbers and channels as without it.
pub proof fn lemma_unknown_key_is_passed_over(
    pairs: Seq<(Seq<char>, Datum)>,
    key: Seq<char>,
    val: Datum,
    known: Seq<char>,
    default: Scalar,
)
    requires
        key != "freq"@,
        key != "ampl"@,
        key != "dur"@,
        key != "ch"@,
        known == "freq"@ || known == "ampl"@ || known == "dur"@,
    ensures
        tone_fault(pairs.push((key, val))) == tone_fault(pairs),
        last_number(pairs.push((key, val)), known, default) == last_number(pairs, known, default),
        listed_channels(pairs.push((key, val))) == listed_channels(pairs),
{
    assert(pairs.push((key, val)).drop_last() == pairs);
}

impl CmdSinout {
    /// A tone of 440 Hz at full amplitude, with no route yet and no end.
    pub fn new() -> (cmd: CmdSinout)
        ensures
            cmd.freq.bits == CONCERT_PITCH_BITS,
            cmd.ampl == Scalar::one(),
            cmd.channels@.len() == 0,
            cmd.dur == Scalar::zero(),
    {
        CmdSinout {
            freq: Scalar { bits: CONCERT_PITCH_BITS },
            ampl: Scalar { bits: ONE_BITS },
            channels: Vec::new(),
            dur: Scalar { bits: 0 },
        }
    }

    /// Gives a tone that names no channel the route to all of them. A route
    /// that is not empty stays as it is.
    pub fn route_to_all_if_unset(&mut self, hardware_channels: usize)
        ensures
            final(self).freq == old(self).freq,
            final(self).ampl == old(self).ampl,
            final(self).dur == old(self).dur,
            final(self).channels@ == if old(self).channels@.len() == 0 {
                full_route(hardware_channels as nat)
            } else {
                old(self).channels@
            },
    {
        if self.channels.len() == 0 {
            self.channels = all_channels(hardware_channels);
        }
    }
}

impl CmdInput {
    /// A capture of no channels.
    pub fn new() -> (cmd: CmdInput)
        ensures
            cmd.channels@.len() == 0,
    {
        CmdInput { channels: Vec::new() }
    }
}

impl CmdScope {
    /// A scope that shows no channels.
    pub fn new() -> (cmd: CmdScope)
        ensures
            cmd.channels@.len() == 0,
    {
        CmdScope { channels: Vec::new() }
    }
}

/// Appends the channel numbers of a channel list to `channels`.
fn push_channels(channels: &mut Vec<u8>, list: &Vec<Datum>) -> (r: Result<(), CommandError>)
    ensures
        r is Ok == !has_bad_channel(list@),
        r is Ok ==> final(channels)@ == old(channels)@ + channels_in(list@),
        r is Err ==> r == Err::<(), CommandError>(CommandError::ChannelExpected),
{
    let mut k: usize = 0;
    while k < list.len()
        invariant
            k <= list@.len(),
            !has_bad_channel(list@.take(k as int)),
            channels@ == old(channels)@ + channels_in(list@.take(k as int)),
        decreases list@.len() - k,
    {
        proof {
            assert(list@.take(k + 1).drop_last() == list@.take(k as int));
        }
        match &list[k] {
            Datum::Number(n) => {
                match n.unsigned {
                    Some(u) => {
                        channels.push((u % 256) as u8);
                    },
                    None => {
                        return Err(CommandError::ChannelExpected);
                    },
                }
            },
            _ => {},
        }
        proof {
            let before = list@.take(k as int);
            let after = list@.take(k + 1);
            if has_bad_channel(after) {
                let m = choose|m: int|
                    0 <= m < after.len() && (#[trigger] after[m] matches Datum::Number(n)
                        && n.unsigned is None);
                if m < k {
                    assert(before[m] == after[m]);
                }
            }
        }
        k = k + 1;
    }
    proof {
        assert(list@.take(k as int) == list@);
    }
    Ok(())
}

/// Reads the value of a `ch` key: appends its channel numbers to `channels`.
fn read_channel_list(channels: &mut Vec<u8>, val: &Datum) -> (r: Result<(), CommandError>)
    ensures
        match r {
            Ok(_) => channel_list_fault(*val) is None && val is List && final(channels)@ == old(
                channels,
            )@ + channels_in(val->List_0@),
            Err(e) => channel_list_fault(*val) == Some(e),
        },
{
    match val {
        Datum::List(list) => push_channels(channels, list),
        _ => Err(CommandError::ListExpected),
    }
}

/// Reads the channels of a capture or scope command.
fn parse_channels(args: &Datum) -> (r: Result<Vec<u8>, CommandError>)
    ensures
        match r {
            Ok(channels) => capture_of(*args) == Ok::<Seq<u8>, CommandError>(channels@),
            Err(e) => capture_of(*args) == Err::<Seq<u8>, CommandError>(e),
        },
{
    let items = match args {
        Datum::List(items) => items,
        _ => {
            return Err(CommandError::ListExpected);
        },
    };
    let pairs = for_plist(items);
    let ghost all = plist(items@);
    let ch_key: String = "ch".to_owned();
    let mut channels: Vec<u8> = Vec::new();
    let mut i: usize = 0;
    while i < pairs.len()
        invariant
            i <= pairs@.len(),
            args is List,
            all == plist(args->List_0@),
            pairs@.len() == all.len(),
            forall|j: int|
                0 <= j < pairs@.len() ==> (#[trigger] pairs@[j]).0@ == all[j].0 && *pairs@[j].1
                    == all[j].1,
            ch_key@ == "ch"@,
            capture_fault(all.take(i as int)) is None,
            channels@ == listed_channels(all.take(i as int)),
        decreases pairs@.len() - i,
    {
        let key = pairs[i].0;
        let val = pairs[i].1;
        proof {
            assert(all.take(i + 1).drop_last() == all.take(i as int));
        }
        if *key == ch_key {
            match read_channel_list(&mut channels, val) {
                Ok(_) => {},
                Err(e) => {
                    proof {
                        lemma_capture_fault_stays(all, i + 1);
                    }
                    return Err(e);
                },
            }
        }
        i = i + 1;
    }
    proof {
        assert(all.take(i as int) == all);
    }
    Ok(channels)
}

/// Reads an `input` command: the channels under `ch`, in the order given.
///
/// Fails where the arguments are no list, where a value of `ch` is no list,
/// and where a number in such a list is not an unsigned integer.
pub fn parse_input(args: &Datum) -> (r: Result<CmdInput, CommandError>)
    ensures
        match r {
            Ok(cmd) => capture_of(*args) == Ok::<Seq<u8>, CommandError>(cmd.channels@),
            Err(e) => capture_of(*args) == Err::<Seq<u8>, CommandError>(e),
        },
{
    match parse_channels(args) {
        Ok(channels) => Ok(CmdInput { channels }),
        Err(e) => Err(e),
    }
}

/// Reads a `scope` command: the channels under `ch`, in the order given.
///
/// Fails where the arguments are no list, where a value of `ch` is no list,
/// and where a number in such a list is not an unsigned integer.
pub fn parse_scope(args: &Datum) -> (r: Result<CmdScope, CommandError>)
    ensures
        match r {
            Ok(cmd) => capture_of(*args) == Ok::<Seq<u8>, CommandError>(cmd.channels@),
            Err(e) => capture_of(*args) == Err::<Seq<u8>, CommandError>(e),
        },
{
    match parse_channels(args) {
        Ok(channels) => Ok(CmdScope { channels }),
        Err(e) => Err(e),
    }
}

/// No two of the keys of a tone command are the same.
proof fn lemma_keys_differ()
    ensures
        "freq"@ != "ampl"@,
        "freq"@ != "dur"@,
        "freq"@ != "ch"@,
        "ampl"@ != "dur"@,
        "ampl"@ != "ch"@,
        "dur"@ != "ch"@,
{
    reveal_strlit("freq");
    reveal_strlit("ampl");
    reveal_strlit("dur");
    reveal_strlit("ch");
    assert("freq"@.len() == 4 && "ampl"@.len() == 4 && "dur"@.len() == 3 && "ch"@.len() == 2);
    assert("freq"@[0] != "ampl"@[0]);
}

/// Takes the number that a pair gives for `freq`, `ampl` or `dur`.
fn read_number(val: &Datum) -> (r: Result<Scalar, CommandError>)
    ensures
        match r {
            Ok(x) => val matches Datum::Number(n) && n.single == x,
            Err(e) => !(val is Number) && e == CommandError::NumberExpected,
        },
{
    match val {
        Datum::Number(n) => Ok(n.single),
        _ => Err(CommandError::NumberExpected),
    }
}

/// Reads a `sinout` command.
///
/// `freq`, `ampl` and `dur` take a number each, and where one is given more
/// than once the last counts. `ch` takes a list of channel numbers; the tone
/// is routed to the channels of all such lists together, with gain one, and
/// the route ends with the largest of them. Without any channel the route is
/// left empty.
///
/// Fails where the arguments are no list, where a value of `freq`, `ampl` or
/// `dur` is no number, where a value of `ch` is no list, and where a number
/// in such a list is not an unsigned integer.
pub fn parse_sinout(args: &Datum) -> (r: Result<CmdSinout, CommandError>)
    ensures
        match r {
            Ok(cmd) => tone_of(*args) == Ok::<ToneView, CommandError>(cmd@),
            Err(e) => tone_of(*args) == Err::<ToneView, CommandError>(e),
        },
{
    let items = match args {
        Datum::List(items) => items,
        _ => {
            return Err(CommandError::ListExpected);
        },
    };
    let pairs = for_plist(items);
    let ghost all = plist(items@);
    let freq_key: String = "freq".to_owned();
    let ampl_key: String = "ampl".to_owned();
    let dur_key: String = "dur".to_owned();
    let ch_key: String = "ch".to_owned();
    let mut cmd = CmdSinout::new();
    let mut channels: Vec<u8> = Vec::new();
    let mut i: usize = 0;
    while i < pairs.len()
        invariant
            i <= pairs@.len(),
            args is List,
            all == plist(args->List_0@),
            pairs@.len() == all.len(),
            forall|j: int|
                0 <= j < pairs@.len() ==> (#[trigger] pairs@[j]).0@ == all[j].0 && *pairs@[j].1
                    == all[j].1,
            freq_key@ == "freq"@,
            ampl_key@ == "ampl"@,
            dur_key@ == "dur"@,
            ch_key@ == "ch"@,
            tone_fault(all.take(i as int)) is None,
            cmd.freq == last_number(all.take(i as int), "freq"@, Scalar { bits: CONCERT_PITCH_BITS }),
            cmd.ampl == last_number(all.take(i as int), "ampl"@, Scalar::one()),
            cmd.dur == last_number(all.take(i as int), "dur"@, Scalar::zero()),
            channels@ == listed_channels(all.take(i as int)),
        decreases pairs@.len() - i,
    {
        let key = pairs[i].0;
        let val = pairs[i].1;
        proof {
            assert(all.take(i + 1).drop_last() == all.take(i as int));
            lemma_keys_differ();
        }
        let step: Result<(), CommandError> = if *key == freq_key {
            match read_number(val) {
                Ok(x) => {
                    cmd.freq = x;
                    Ok(())
                },
                Err(e) => Err(e),
            }
        } else if *key == ampl_key {
            match read_number(val) {
                Ok(x) => {
                    cmd.ampl = x;
                    Ok(())
                },
                Err(e) => Err(e),
            }
        } else if *key == dur_key {
            match read_number(val) {
                Ok(x) => {
                    cmd.dur = x;
                    Ok(())
                },
                Err(e) => Err(e),
            }
        } else if *key == ch_key {
            read_channel_list(&mut channels, val)
        } else {
            Ok(())
        };
        match step {
            Ok(_) => {},
            Err(e) => {
                proof {
                    lemma_tone_fault_stays(all, i + 1);
                }
                return Err(e);
            },
        }
        i = i + 1;
    }
    proof {
        assert(all.take(i as int) == all);
    }
    cmd.channels = gain_route(&channels);
    Ok(cmd)
}

/// Reads a command from its name and its arguments.
///
/// The one command read this way is `sinout`. Any other symbol is an unknown
/// command, and a name that is no symbol is a bad token.
pub fn parse_cmd(cmd: &Datum, args: &Datum) -> (r: Result<Command, CommandError>)
    ensures
        match r {
            Ok(Command::Sinout(tone)) => cmd matches Datum::Symbol(name) && name@ == "sinout"@
                && tone_of(*args) == Ok::<ToneView, CommandError>(tone@),
            Ok(Command::Input(_)) => false,
            Err(e) => match *cmd {
                Datum::Symbol(name) => if name@ == "sinout"@ {
                    tone_of(*args) == Err::<ToneView, CommandError>(e)
                } else {
                    e == CommandError::UnknownCommand
                },
                _ => e == CommandError::BadToken,
            },
        },
{
    match cmd {
        Datum::Symbol(name) => {
            let sinout_key: String = "sinout".to_owned();
            if *name == sinout_key {
                match parse_sinout(args) {
                    Ok(tone) => Ok(Command::Sinout(tone)),
                    Err(e) => Err(e),
                }
            } else {
                Err(CommandError::UnknownCommand)
            }
        },
        _ => Err(CommandError::BadToken),
    }
}

} // verus!
