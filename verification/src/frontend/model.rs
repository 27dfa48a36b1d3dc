//! A song as the client shows it.

use crate::subsonic::Child;
use crate::text::{decimal_nat, opt_view, u64_to_string};
use vstd::prelude::*;

verus! {

/// A song of a search result.
#[derive(Debug, PartialEq, Eq)]
pub struct SongInfo(pub Child);

/// `n` in decimal, with a zero in front where it has one digit.
pub open spec fn two_digits(n: nat) -> Seq<char> {
    if n < 10 {
        "0"@ + decimal_nat(n)
    } else {
        decimal_nat(n)
    }
}

/// A length in seconds as a reader takes it in: a dash for none or zero,
/// `0:ss` below a minute, `mm:ss` below an hour, and `h:mm:ss` from there,
/// where `mm` counts all the minutes.
pub open spec fn humanized(total_secs: u64) -> Seq<char> {
    let mins = (total_secs / 60) as nat;
    let hours = mins / 60;
    let secs = (total_secs % 60) as nat;
    if total_secs == 0 {
        "-"@
    } else if total_secs < 60 {
        "0:"@ + two_digits(secs)
    } else if total_secs < 3600 {
        two_digits(mins) + ":"@ + two_digits(secs)
    } else {
        decimal_nat(hours) + ":"@ + two_digits(mins) + ":"@ + two_digits(secs)
    }
}

/// Writes `n` in decimal, with a zero in front where it has one digit.
pub fn pad2(n: u64) -> (r: String)
    ensures
        r@ == two_digits(n as nat),
{
    if n < 10 {
        let mut out = String::from_str("0");
        out.append(u64_to_string(n).as_str());
        out
    } else {
        u64_to_string(n)
    }
}

impl SongInfo {
    /// The length of the song as a reader takes it in.
    pub fn duration_humanized(&self) -> (r: String)
        ensures
            r@ == humanized(
                match self.0.duration {
                    Some(d) => d,
                    None => 0,
                },
            ),
    {
        let total_secs: u64 = match self.0.duration {
            Some(d) => d,
            None => 0,
        };
        if total_secs == 0 {
            return String::from_str("-");
        }
        let mins: u64 = total_secs / 60;
        let hours: u64 = mins / 60;
        let secs: u64 = total_secs % 60;
        if total_secs < 60 {
            let mut out = String::from_str("0:");
            out.append(pad2(secs).as_str());
            out
        } else if total_secs < 3600 {
            let mut out = pad2(mins);
            out.append(":");
            out.append(pad2(secs).as_str());
            out
        } else {
            let mut out = u64_to_string(hours);
            out.append(":");
            out.append(pad2(mins).as_str());
            out.append(":");
            out.append(pad2(secs).as_str());
            out
        }
    }

    /// The title, behind the artist and a dash where the song names one.
    pub fn title_with_optional_artist(&self) -> (r: String)
        ensures
            r@ == match opt_view(self.0.artist) {
                Some(artist) => artist + " - "@ + self.0.title@,
                None => self.0.title@,
            },
    {
        match &self.0.artist {
            Some(artist) => {
                let mut out = artist.clone();
                out.append(" - ");
                out.append(self.0.title.as_str());
                out
            },
            None => self.0.title.clone(),
        }
    }

    /// Where the cover of the song is to be had, where it has one.
    pub fn cover_art_url(&self, base_url: &str) -> (r: Option<String>)
        ensures
            opt_view(r) == match opt_view(self.0.cover_art) {
                Some(id) => Some(base_url@ + "/rest/getCoverArt.view?id="@ + id),
                None => None,
            },
    {
        match &self.0.cover_art {
            Some(id) => {
                let mut out = String::from_str(base_url);
                out.append("/rest/getCoverArt.view?id=");
                out.append(id.as_str());
                Some(out)
            },
            None => None,
        }
    }

    /// Where the song is to be streamed from.
    pub fn stream_url(&self, base_url: &str) -> (r: String)
        ensures
            r@ == base_url@ + "/rest/stream.view?id="@ + self.0.id@,
    {
        let mut out = String::from_str(base_url);
        out.append("/rest/stream.view?id=");
        out.append(self.0.id.as_str());
        out
    }
}

} // verus!
