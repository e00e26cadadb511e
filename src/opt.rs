use crate::cdn::{cdn_of, Cdn};
use crate::error::OptError;
use crate::date::{all_digits, date_token, date_value, digits_value, is_digit, parse_date, Date};
use vstd::prelude::*;

verus! {

/// The starting channel number of the guide when none is given.
pub const DEFAULT_XMLTV_START_CHANNEL: u32 = 1000;

/// The resolved settings of one run.
#[derive(Debug, PartialEq, Eq)]
pub struct Opt {
    /// The date to get stream links for; `None` means today.
    pub date: Option<Date>,
    /// The CDN to request links from.
    pub cdn: Cdn,
    /// Where to write an `.m3u` playlist of all games, if anywhere.
    pub playlist_output: Option<String>,
    /// Where to write an XMLTV guide (with its playlist), if anywhere.
    pub xmltv_output: Option<String>,
    /// The first channel number that the guide assigns.
    pub xmltv_start_channel: u32,
}

/// How the links of a run are emitted: written to files, or printed directly.
#[derive(Debug, PartialEq, Eq)]
pub enum OutputType {
    Playlist(Opt),
    Normal(Opt),
}

/// The digits of a channel token: an optional leading `+` is dropped.
pub open spec fn channel_digits(s: Seq<char>) -> Seq<char> {
    if s.len() > 0 && s[0] == '+' {
        s.drop_first()
    } else {
        s
    }
}

/// `s` writes a non-negative decimal number that fits in a `u32`.
pub open spec fn channel_token(s: Seq<char>) -> bool {
    let t = channel_digits(s);
    t.len() > 0 && all_digits(t) && digits_value(t) <= u32::MAX
}

pub open spec fn channel_value(s: Seq<char>) -> int {
    digits_value(channel_digits(s))
}

proof fn lemma_digits_value_step(s: Seq<char>, a: int, i: int)
    requires
        0 <= a <= i < s.len(),
    ensures
        digits_value(s.subrange(a, i + 1)) == digits_value(s.subrange(a, i)) * 10 + (s[i] as int
            - '0' as int),
{
    assert(s.subrange(a, i + 1).drop_last() =~= s.subrange(a, i));
}

proof fn lemma_digits_value_prefix(t: Seq<char>, k: int)
    requires
        all_digits(t),
        0 <= k <= t.len(),
    ensures
        0 <= digits_value(t.subrange(0, k)) <= digits_value(t),
    decreases t.len(),
{
    if k == t.len() {
        assert(t.subrange(0, k) =~= t);
        if t.len() > 0 {
            lemma_digits_value_prefix(t.drop_last(), 0);
            assert(is_digit(t[t.len() - 1]));
        } else {
            assert(t.subrange(0, k) =~= Seq::<char>::empty());
        }
    } else {
        let u = t.drop_last();
        assert(u.subrange(0, k) =~= t.subrange(0, k));
        lemma_digits_value_prefix(u, k);
        assert(is_digit(t[t.len() - 1]));
    }
}

/// Parses a starting channel number, as a decimal number with an optional `+`.
pub fn parse_channel(s: &str) -> (r: Result<u32, OptError>)
    ensures
        r == (if channel_token(s@) {
            Ok(channel_value(s@) as u32)
        } else {
            Err(OptError::NumberFormat)
        }),
{
    let n = s.unicode_len();
    let mut start: usize = 0;
    if n > 0 && s.get_char(0) == '+' {
        start = 1;
    }
    let ghost t = s@.subrange(start as int, n as int);
    assert(t =~= channel_digits(s@));
    if start == n {
        return Err(OptError::NumberFormat);
    }
    let mut acc: u64 = 0;
    let mut i: usize = start;
    while i < n
        invariant
            n == s@.len(),
            start <= i <= n,
            t == s@.subrange(start as int, n as int),
            t == channel_digits(s@),
            forall|j: int| start <= j < i ==> is_digit(#[trigger] s@[j]),
            acc as int == digits_value(s@.subrange(start as int, i as int)),
            acc <= u32::MAX,
        decreases n - i,
    {
        let c = s.get_char(i);
        if !('0' <= c && c <= '9') {
            assert(!is_digit(t[i - start]));
            return Err(OptError::NumberFormat);
        }
        proof {
            lemma_digits_value_step(s@, start as int, i as int);
        }
        let next = acc * 10 + (c as u64 - '0' as u64);
        if next > u32::MAX as u64 {
            proof {
                if all_digits(t) {
                    let k = i + 1 - start;
                    lemma_digits_value_prefix(t, k);
                    assert(t.subrange(0, k) =~= s@.subrange(start as int, i + 1));
                }
            }
            return Err(OptError::NumberFormat);
        }
        acc = next;
        i = i + 1;
    }
    assert(s@.subrange(start as int, n as int) =~= t);
    Ok(acc as u32)
}

/// The first field that is given but invalid, in the order date, CDN, start
/// channel; `None` when every given field is valid.
pub open spec fn config_error(
    date: Option<&str>,
    cdn: Option<&str>,
    xmltv_start_channel: Option<&str>,
) -> Option<OptError> {
    if date matches Some(t) && !date_token(t@) {
        Some(OptError::DateFormat)
    } else if cdn matches Some(t) && cdn_of(t@) is None {
        Some(OptError::InvalidChoice)
    } else if xmltv_start_channel matches Some(t) && !channel_token(t@) {
        Some(OptError::NumberFormat)
    } else {
        None
    }
}

/// The settings that valid fields give: an absent date stays absent, an absent
/// CDN is `Akc`, an absent start channel is the default one.
pub open spec fn config_value(
    date: Option<&str>,
    cdn: Option<&str>,
    playlist_output: Option<String>,
    xmltv_output: Option<String>,
    xmltv_start_channel: Option<&str>,
) -> Opt {
    Opt {
        date: match date {
            Some(t) => Some(date_value(t@)),
            None => None,
        },
        cdn: match cdn {
            Some(t) => cdn_of(t@).unwrap(),
            None => Cdn::Akc,
        },
        playlist_output,
        xmltv_output,
        xmltv_start_channel: match xmltv_start_channel {
            Some(t) => channel_value(t@) as u32,
            None => DEFAULT_XMLTV_START_CHANNEL,
        },
    }
}

/// Whether the settings ask for any output file.
pub open spec fn wants_files(o: Opt) -> bool {
    o.playlist_output is Some || o.xmltv_output is Some
}

impl Opt {
    /// Builds the settings from the raw value of each option, `None` where the
    /// option was not given. The first invalid field, in the order date, CDN,
    /// start channel, is the error.
    pub fn from_raw(
        date: Option<&str>,
        cdn: Option<&str>,
        playlist_output: Option<String>,
        xmltv_output: Option<String>,
        xmltv_start_channel: Option<&str>,
    ) -> (r: Result<Opt, OptError>)
        ensures
            r == (match config_error(date, cdn, xmltv_start_channel) {
                Some(e) => Err(e),
                None => Ok(
                    config_value(date, cdn, playlist_output, xmltv_output, xmltv_start_channel),
                ),
            }),
            r matches Ok(o) ==> (o.date matches Some(d) ==> d.wf()),
    {
        let date = match date {
            Some(t) => match parse_date(t) {
                Ok(d) => Some(d),
                Err(e) => {
                    return Err(e);
                },
            },
            None => None,
        };
        let cdn = match cdn {
            Some(t) => match Cdn::from_str(t) {
                Ok(c) => c,
                Err(e) => {
                    return Err(e);
                },
            },
            None => Cdn::default(),
        };
        let xmltv_start_channel = match xmltv_start_channel {
            Some(t) => match parse_channel(t) {
                Ok(n) => n,
                Err(e) => {
                    return Err(e);
                },
            },
            None => DEFAULT_XMLTV_START_CHANNEL,
        };
        Ok(Opt { date, cdn, playlist_output, xmltv_output, xmltv_start_channel })
    }
}

/// Classifies a run: any output path asks for files, none prints directly.
pub fn resolve_mode(opts: Opt) -> (r: OutputType)
    ensures
        r == (if wants_files(opts) {
            OutputType::Playlist(opts)
        } else {
            OutputType::Normal(opts)
        }),
{
    if opts.playlist_output.is_some() || opts.xmltv_output.is_some() {
        OutputType::Playlist(opts)
    } else {
        OutputType::Normal(opts)
    }
}

/// Leaving out the date, the CDN and the start channel is never an error, and
/// gives no date, the `Akc` CDN and the default start channel.
pub proof fn lemma_omitted_fields_default(
    playlist_output: Option<String>,
    xmltv_output: Option<String>,
)
    ensures
        config_error(None, None, None) is None,
        config_value(None, None, playlist_output, xmltv_output, None) == (Opt {
            date: None,
            cdn: Cdn::Akc,
            playlist_output,
            xmltv_output,
            xmltv_start_channel: 1000,
        }),
{
}

} // verus!
