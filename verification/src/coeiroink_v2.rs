use vstd::prelude::*;
use crate::common::{SpeakerInfo, Style};

verus! {

/// A voice as COEIROINK v2 lists it.
pub struct SpeakerResponse {
    pub speaker_name: String,
    pub speaker_uuid: String,
    pub styles: Vec<StyleResponse>,
    pub _version: String,
    pub _base64_portrait: String,
}

/// A style of a voice as COEIROINK v2 lists it.
pub struct StyleResponse {
    pub style_name: Option<String>,
    pub style_id: Option<i32>,
    pub _base64_icon: Option<String>,
    pub _base64_portrait: Option<String>,
}

/// The style as the menus show it: its name and id.
pub open spec fn style_of(s: StyleResponse) -> Style {
    Style { style_name: s.style_name, style_id: s.style_id }
}

/// The voice as the menus show it: its name, id and styles, the pictures left out.
pub open spec fn speaker_of(s: SpeakerResponse, info: SpeakerInfo) -> bool {
    &&& info.speaker_name == s.speaker_name
    &&& info.speaker_uuid == s.speaker_uuid
    &&& info.styles@ == s.styles@.map_values(|x: StyleResponse| style_of(x))
}

impl StyleResponse {
    /// The style as the menus show it.
    pub fn to_style(&self) -> (r: Style)
        ensures
            r == style_of(*self),
    {
        let style_name = match &self.style_name {
            Some(n) => Some(n.clone()),
            None => None,
        };
        Style { style_name, style_id: self.style_id }
    }
}

impl SpeakerResponse {
    /// The voice as the menus show it.
    pub fn to_speaker_info(&self) -> (r: SpeakerInfo)
        ensures
            speaker_of(*self, r),
    {
        let mut styles: Vec<Style> = Vec::new();
        let mut i: usize = 0;
        while i < self.styles.len()
            invariant
                i <= self.styles@.len(),
                styles@ == self.styles@.take(i as int).map_values(|x: StyleResponse| style_of(x)),
            decreases self.styles@.len() - i,
        {
            styles.push(self.styles[i].to_style());
            assert(self.styles@.take(i + 1).map_values(|x: StyleResponse| style_of(x))
                =~= self.styles@.take(i as int).map_values(|x: StyleResponse| style_of(x)).push(
                style_of(self.styles@[i as int]),
            ));
            i = i + 1;
        }
        assert(self.styles@.take(self.styles@.len() as int) =~= self.styles@);
        SpeakerInfo {
            speaker_name: self.speaker_name.clone(),
            speaker_uuid: self.speaker_uuid.clone(),
            styles,
        }
    }
}

/// The voices that COEIROINK v2 listed, as the menus show them, in order.
pub fn speakers_from_responses(responses: &Vec<SpeakerResponse>) -> (r: Vec<SpeakerInfo>)
    ensures
        r@.len() == responses@.len(),
        forall|i: int| 0 <= i < r@.len() ==> speaker_of(responses@[i], #[trigger] r@[i]),
{
    let mut r: Vec<SpeakerInfo> = Vec::new();
    let mut i: usize = 0;
    while i < responses.len()
        invariant
            i <= responses@.len(),
            r@.len() == i,
            forall|j: int| 0 <= j < i ==> speaker_of(responses@[j], #[trigger] r@[j]),
        decreases responses@.len() - i,
    {
        r.push(responses[i].to_speaker_info());
        i = i + 1;
    }
    r
}

} // verus!
