//! What the venue tells of itself, and the opening and closing of its live
//! session.

use crate::connectors::binance::Binance;
use vstd::prelude::*;
use vstd::string::*;

verus! {

/// Why a live session could not be opened or closed.
#[derive(Debug, Clone, Copy, PartialEq, Eq, Structural)]
pub enum LinkError {
    /// A session is open already.
    AlreadyConnected,
    /// No session is open.
    NotConnected,
    /// The address of the live stream is no URL.
    InvalidUrl,
}

/// Whether `text` is an absolute URL, as the `url` crate reads it.
pub uninterp spec fn is_url(text: Seq<char>) -> bool;

/// Whether `url::Url::parse` accepts `text`. The parser depends on its
/// argument alone; the contract names its answer.
#[verifier::external_body]
pub(crate) fn url_parses(text: &str) -> (res: bool)
    ensures
        res == is_url(text@),
{
    url::Url::parse(text).is_ok()
}

/// The lower-case form of an ASCII capital; any other character itself.
pub open spec fn lower_char(c: char) -> char {
    if 'A' <= c && c <= 'Z' {
        ((c as u8 + 32) as u8) as char
    } else {
        c
    }
}

/// The text with every ASCII capital in lower case.
pub open spec fn lower(text: Seq<char>) -> Seq<char> {
    text.map_values(|c: char| lower_char(c))
}

/// `str::to_ascii_lowercase`: a copy of the text in which the ASCII
/// letters `A` to `Z` are mapped to `a` to `z` and every other character
/// is unchanged, as the standard library documents it.
#[verifier::external_body]
pub(crate) fn to_lower(text: &str) -> (res: String)
    ensures
        res@ == lower(text@),
{
    text.to_ascii_lowercase()
}

impl Binance {
    /// The address of the live candles of a symbol at an interval.
    pub open spec fn stream_address(symbol: Seq<char>, interval: Seq<char>) -> Seq<char> {
        "wss://fstream.binance.com/ws/"@ + lower(symbol) + "@kline_"@ + interval
    }

    /// The venue's name.
    pub fn name(&self) -> (res: &str)
        ensures
            res@ == self.name_text()@,
    {
        self.name.as_str()
    }

    /// The symbol.
    pub fn symbol(&self) -> (res: &str)
        ensures
            res@ == self.symbol_text()@,
    {
        self.symbol.as_str()
    }

    /// The candle interval.
    pub fn timeframe(&self) -> (res: &str)
        ensures
            res@ == self.interval_text()@,
    {
        self.interval.as_str()
    }

    /// The address of the live stream.
    pub fn stream_url(&self) -> (res: String)
        ensures
            res@ == Binance::stream_address(self.symbol_text()@, self.interval_text()@),
    {
        let mut url = String::from_str("wss://fstream.binance.com/ws/");
        let symbol = to_lower(self.symbol.as_str());
        url.append(symbol.as_str());
        url.append("@kline_");
        url.append(self.interval.as_str());
        url
    }

    /// Whether a live session is taken to be open.
    pub fn is_connected(&self) -> (res: bool)
        ensures
            res == self.connected(),
    {
        self.connected
    }

    /// What opening a session gives, for the state of the venue, the
    /// address of its stream, and whether that address is a URL.
    pub open spec fn connect_outcome(connected: bool, address: Seq<char>, address_is_url: bool) -> Result<
        Seq<char>,
        LinkError,
    > {
        if connected {
            Err(LinkError::AlreadyConnected)
        } else if !address_is_url {
            Err(LinkError::InvalidUrl)
        } else {
            Ok(address)
        }
    }

    /// Marks the session open and gives the address to open, given whether
    /// `address` is a URL; refuses where a session is open already or the
    /// address is no URL, and then changes nothing.
    pub fn connect_to(&mut self, address: String, address_is_url: bool) -> (res: Result<String, LinkError>)
        ensures
            match res {
                Ok(url) => Binance::connect_outcome(old(self).connected(), address@, address_is_url) == Ok::<
                    Seq<char>,
                    LinkError,
                >(url@) && url == address,
                Err(e) => Binance::connect_outcome(old(self).connected(), address@, address_is_url) == Err::<
                    Seq<char>,
                    LinkError,
                >(e),
            },
            final(self).connected() == (old(self).connected() || res is Ok),
            final(self).name_text() == old(self).name_text(),
            final(self).symbol_text() == old(self).symbol_text(),
            final(self).interval_text() == old(self).interval_text(),
    {
        if self.connected {
            return Err(LinkError::AlreadyConnected);
        }
        if !address_is_url {
            return Err(LinkError::InvalidUrl);
        }
        self.connected = true;
        Ok(address)
    }

    /// Marks the session open and gives the address of the live stream to
    /// open; refuses where a session is open already or the address is no
    /// URL, and then changes nothing.
    pub fn connect(&mut self) -> (res: Result<String, LinkError>)
        ensures
            match res {
                Ok(url) => {
                    &&& !old(self).connected()
                    &&& url@ == Binance::stream_address(old(self).symbol_text()@, old(self).interval_text()@)
                    &&& is_url(url@)
                },
                Err(e) => e == if old(self).connected() {
                    LinkError::AlreadyConnected
                } else {
                    LinkError::InvalidUrl
                } && (old(self).connected() || !is_url(
                    Binance::stream_address(old(self).symbol_text()@, old(self).interval_text()@),
                )),
            },
            final(self).connected() == (old(self).connected() || res is Ok),
            final(self).name_text() == old(self).name_text(),
            final(self).symbol_text() == old(self).symbol_text(),
            final(self).interval_text() == old(self).interval_text(),
    {
        let address = self.stream_url();
        let address_is_url = url_parses(address.as_str());
        self.connect_to(address, address_is_url)
    }

    /// Marks the session closed; refuses where none is open.
    pub fn disconnect(&mut self) -> (res: Result<(), LinkError>)
        ensures
            res == if old(self).connected() {
                Ok::<(), LinkError>(())
            } else {
                Err::<(), LinkError>(LinkError::NotConnected)
            },
            !final(self).connected(),
            final(self).name_text() == old(self).name_text(),
            final(self).symbol_text() == old(self).symbol_text(),
            final(self).interval_text() == old(self).interval_text(),
    {
        if !self.connected {
            return Err(LinkError::NotConnected);
        }
        self.connected = false;
        Ok(())
    }
}

} // verus!
