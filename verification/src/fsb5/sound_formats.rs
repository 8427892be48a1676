//! The table of sound formats an FSB5 bank can carry, keyed by the header's
//! mode word, and the container each one is repacked into.

use vstd::prelude::*;

verus! {

/// The container a sample is written out as.
#[derive(Debug, Clone, Copy, PartialEq, Eq, Structural)]
pub enum SoundContainer {
    Unknown,
    Mp3,
    Ogg,
    Wav,
}

/// The file extension used for a container.
pub open spec fn container_extension(c: SoundContainer) -> Seq<char> {
    match c {
        SoundContainer::Unknown => "bin"@,
        SoundContainer::Mp3 => "mp3"@,
        SoundContainer::Ogg => "ogg"@,
        SoundContainer::Wav => "wav"@,
    }
}

impl SoundContainer {
    /// The file extension written for this container.
    pub fn file_extension(&self) -> (r: &'static str)
        ensures
            r@ == container_extension(*self),
    {
        match self {
            SoundContainer::Unknown => "bin",
            SoundContainer::Mp3 => "mp3",
            SoundContainer::Ogg => "ogg",
            SoundContainer::Wav => "wav",
        }
    }
}

/// The mathematical content of one sound-format table row.
pub ghost struct SoundFormatModel {
    pub id: u8,
    pub name: Seq<char>,
    pub sound_container: SoundContainer,
}

/// One sound-format table row: its id, its name, and its container.
#[derive(Debug)]
pub struct SoundFormat {
    pub id: u8,
    pub name: &'static str,
    pub sound_container: SoundContainer,
}

impl View for SoundFormat {
    type V = SoundFormatModel;

    open spec fn view(&self) -> SoundFormatModel {
        SoundFormatModel { id: self.id, name: self.name@, sound_container: self.sound_container }
    }
}

/// The table row for a format id, if the id is recognized.
pub open spec fn format_for_id(id: u8) -> Option<SoundFormatModel> {
    if id == 0 {
        Some(SoundFormatModel { id: 0, name: "none"@, sound_container: SoundContainer::Unknown })
    } else if id == 1 {
        Some(SoundFormatModel { id: 1, name: "pcm8"@, sound_container: SoundContainer::Wav })
    } else if id == 2 {
        Some(SoundFormatModel { id: 2, name: "pc16"@, sound_container: SoundContainer::Wav })
    } else if id == 3 {
        Some(SoundFormatModel { id: 3, name: "pcm24"@, sound_container: SoundContainer::Unknown })
    } else if id == 4 {
        Some(SoundFormatModel { id: 4, name: "pcm32"@, sound_container: SoundContainer::Wav })
    } else if id == 5 {
        Some(
            SoundFormatModel {
                id: 5,
                name: "pcm_float"@,
                sound_container: SoundContainer::Unknown,
            },
        )
    } else if id == 6 {
        Some(
            SoundFormatModel { id: 6, name: "gcadpcm"@, sound_container: SoundContainer::Unknown },
        )
    } else if id == 7 {
        Some(
            SoundFormatModel {
                id: 7,
                name: "imaadpcm"@,
                sound_container: SoundContainer::Unknown,
            },
        )
    } else if id == 8 {
        Some(SoundFormatModel { id: 8, name: "vag"@, sound_container: SoundContainer::Unknown })
    } else if id == 9 {
        Some(SoundFormatModel { id: 9, name: "hevag"@, sound_container: SoundContainer::Unknown })
    } else if id == 10 {
        Some(SoundFormatModel { id: 10, name: "xma"@, sound_container: SoundContainer::Unknown })
    } else if id == 11 {
        Some(SoundFormatModel { id: 11, name: "mpeg"@, sound_container: SoundContainer::Mp3 })
    } else if id == 12 {
        Some(SoundFormatModel { id: 12, name: "celt"@, sound_container: SoundContainer::Unknown })
    } else if id == 13 {
        Some(SoundFormatModel { id: 13, name: "alt9"@, sound_container: SoundContainer::Unknown })
    } else if id == 14 {
        Some(SoundFormatModel { id: 14, name: "xwma"@, sound_container: SoundContainer::Unknown })
    } else if id == 15 {
        Some(SoundFormatModel { id: 15, name: "vorbis"@, sound_container: SoundContainer::Ogg })
    } else {
        None
    }
}

impl SoundFormat {
    /// Looks a format id up in the table.
    pub fn get_by_id(wanted_id: u8) -> (r: Option<SoundFormat>)
        ensures
            match r {
                Some(f) => format_for_id(wanted_id) == Some(f@),
                None => format_for_id(wanted_id) is None,
            },
    {
        match wanted_id {
            0 => Some(
                SoundFormat { id: 0, name: "none", sound_container: SoundContainer::Unknown },
            ),
            1 => Some(SoundFormat { id: 1, name: "pcm8", sound_container: SoundContainer::Wav }),
            2 => Some(SoundFormat { id: 2, name: "pc16", sound_container: SoundContainer::Wav }),
            3 => Some(
                SoundFormat { id: 3, name: "pcm24", sound_container: SoundContainer::Unknown },
            ),
            4 => Some(SoundFormat { id: 4, name: "pcm32", sound_container: SoundContainer::Wav }),
            5 => Some(
                SoundFormat { id: 5, name: "pcm_float", sound_container: SoundContainer::Unknown },
            ),
            6 => Some(
                SoundFormat { id: 6, name: "gcadpcm", sound_container: SoundContainer::Unknown },
            ),
            7 => Some(
                SoundFormat { id: 7, name: "imaadpcm", sound_container: SoundContainer::Unknown },
            ),
            8 => Some(SoundFormat { id: 8, name: "vag", sound_container: SoundContainer::Unknown }),
            9 => Some(
                SoundFormat { id: 9, name: "hevag", sound_container: SoundContainer::Unknown },
            ),
            10 => Some(
                SoundFormat { id: 10, name: "xma", sound_container: SoundContainer::Unknown },
            ),
            11 => Some(SoundFormat { id: 11, name: "mpeg", sound_container: SoundContainer::Mp3 }),
            12 => Some(
                SoundFormat { id: 12, name: "celt", sound_container: SoundContainer::Unknown },
            ),
            13 => Some(
                SoundFormat { id: 13, name: "alt9", sound_container: SoundContainer::Unknown },
            ),
            14 => Some(
                SoundFormat { id: 14, name: "xwma", sound_container: SoundContainer::Unknown },
            ),
            15 => Some(SoundFormat { id: 15, name: "vorbis", sound_container: SoundContainer::Ogg }),
            _ => None,
        }
    }
}

} // verus!
