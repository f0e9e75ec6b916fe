use vstd::prelude::*;
use crate::common::{Engine, SpeakerInfo, Style, spec_name};
use crate::engine::BouyomiChanSpeakerGetter;
use vstd::string::StringExecFns;

verus! {

/// The speaker id under which BouyomiChan's voices are listed.
pub const BOUYOMICHAN_UUID: &'static str = "bouyomichan";

/// The name of BouyomiChan's voice number `i + 1`.
pub open spec fn voice_name(i: int) -> Seq<char> {
    if i == 0 {
        "女性1"@
    } else if i == 1 {
        "女性2"@
    } else if i == 2 {
        "男性1"@
    } else if i == 3 {
        "男性2"@
    } else if i == 4 {
        "中性"@
    } else if i == 5 {
        "ロボット"@
    } else if i == 6 {
        "機械1"@
    } else {
        "機械2"@
    }
}

fn style(name: &str, id: i32) -> (r: Style)
    ensures
        r.style_name matches Some(n) && n@ == name@,
        r.style_id == Some(id),
{
    Style { style_name: Some(String::from_str(name)), style_id: Some(id) }
}

/// `v` lists BouyomiChan's voices: one speaker, named after the engine, with its eight
/// voices numbered from 1.
pub open spec fn lists_bouyomichan_voices(v: Seq<SpeakerInfo>) -> bool {
    &&& v.len() == 1
    &&& v[0].speaker_name@ == spec_name(Engine::BouyomiChan)
    &&& v[0].speaker_uuid@ == BOUYOMICHAN_UUID@
    &&& v[0].styles@.len() == 8
    &&& forall|i: int|
        0 <= i < 8 ==> ((#[trigger] v[0].styles@[i]).style_name matches Some(n) && n@ == voice_name(i)
            && v[0].styles@[i].style_id == Some((i + 1) as i32))
}

/// BouyomiChan's voices: one speaker with its eight voices, numbered from 1.
pub fn bouyomichan_speakers() -> (r: Vec<SpeakerInfo>)
    ensures
        lists_bouyomichan_voices(r@),
{
    let styles = vec![
        style("女性1", 1),
        style("女性2", 2),
        style("男性1", 3),
        style("男性2", 4),
        style("中性", 5),
        style("ロボット", 6),
        style("機械1", 7),
        style("機械2", 8),
    ];
    let info = SpeakerInfo {
        speaker_name: String::from_str(Engine::BouyomiChan.name()),
        speaker_uuid: String::from_str(BOUYOMICHAN_UUID),
        styles,
    };
    vec![info]
}

impl BouyomiChanSpeakerGetter {
    /// BouyomiChan's voices, when BouyomiChan is running; else the reason why there are none.
    pub fn speakers_info(&self, running: bool) -> (r: Result<Vec<SpeakerInfo>, String>)
        ensures
            running ==> (r matches Ok(v) && lists_bouyomichan_voices(v@)),
            !running ==> (r matches Err(m) && m@ == "BouyomiChan.exe is not running"@),
    {
        if !running {
            return Err(String::from_str("BouyomiChan.exe is not running"));
        }
        Ok(bouyomichan_speakers())
    }
}

/// The `count` lowest bytes of `n`, least significant first.
pub open spec fn le_bytes(n: nat, count: nat) -> Seq<u8>
    decreases count,
{
    if count == 0 {
        Seq::empty()
    } else {
        seq![(n % 256) as u8] + le_bytes(n / 256, (count - 1) as nat)
    }
}

/// The two bytes of a 16-bit value, least significant first.
pub open spec fn le16(v: i16) -> Seq<u8> {
    le_bytes((v as u16) as nat, 2)
}

fn push_le(out: &mut Vec<u8>, n: u64, count: usize)
    ensures
        final(out)@ == old(out)@ + le_bytes(n as nat, count as nat),
    decreases count,
{
    if count == 0 {
        assert(old(out)@ + le_bytes(n as nat, 0) =~= old(out)@);
        return;
    }
    out.push((n % 256) as u8);
    let ghost mid = out@;
    push_le(out, n / 256, count - 1);
    assert(old(out)@ + le_bytes(n as nat, count as nat) =~= mid + le_bytes((n / 256) as nat, (count - 1) as nat));
}

/// The header of a request that BouyomiChan speak a text of `msg_length` bytes in voice
/// `voice` at volume `volume`: the command "speak" (1), speed and tone left to BouyomiChan
/// (-1), the volume, the voice, the character code UTF-8 (0), each in two bytes, then the
/// length in as many bytes as a `usize` has; all least significant byte first.
pub fn make_header(voice: i16, volume: i16, msg_length: usize) -> (r: Vec<u8>)
    ensures
        r@ == le16(1i16) + le16(-1i16) + le16(-1i16) + le16(volume) + le16(voice) + le16(0i16) + le_bytes(
            msg_length as nat,
            (usize::BITS / 8) as nat,
        ),
{
    let command: i16 = 1;
    let speed: i16 = -1;
    let tone: i16 = -1;
    let char_code: i16 = 0;
    let mut header: Vec<u8> = Vec::new();
    push_le(&mut header, (command as u16) as u64, 2);
    push_le(&mut header, (speed as u16) as u64, 2);
    push_le(&mut header, (tone as u16) as u64, 2);
    push_le(&mut header, (volume as u16) as u64, 2);
    push_le(&mut header, (voice as u16) as u64, 2);
    push_le(&mut header, (char_code as u16) as u64, 2);
    push_le(&mut header, msg_length as u64, (usize::BITS / 8) as usize);
    header
}

} // verus!
