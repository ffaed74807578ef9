//! Textual network addresses: classification and parsing.
//!
//! An address string is a host, optionally followed by a colon and a port:
//! `192.168.0.1` or `192.168.0.1:8080`. The host is all that stands before
//! the first colon, the port text all that stands after it.

use vstd::prelude::*;
use crate::error::{modelled, ParseError};
use crate::port::{
    decimal_text, lemma_decimal_text_denotes, lemma_port_text_round_trip, parse_port, port_spec,
    DEFAULT_PORT,
};

verus! {

/// The address family of a parsed address.
#[derive(Debug, Clone, Copy, PartialEq, Eq, Structural)]
pub enum IPType {
    IPV4,
    IPV6,
}

impl Default for IPType {
    fn default() -> (r: Self)
        ensures
            r == IPType::IPV4,
    {
        IPType::IPV4
    }
}

/// How often `c` occurs in `s`.
pub open spec fn count_of(s: Seq<char>, c: char) -> nat
    decreases s.len(),
{
    if s.len() == 0 {
        0
    } else {
        count_of(s.drop_last(), c) + if s.last() == c { 1nat } else { 0nat }
    }
}

/// The family of a string with that many colons and dots.
///
/// Beware: the first test holds of every colon count, so the answer is IPv4
/// whatever the counts are, and the two other branches are never taken (see
/// [`lemma_ip_type_is_always_ipv4`]). No string is rejected at this stage,
/// and none is taken for IPv6; a string with several colons fails later, on
/// its port text.
pub open spec fn family_of_counts(colons: nat, dots: nat) -> Result<IPType, ParseError> {
    if colons >= 5 || colons <= 6 {
        Ok(IPType::IPV4)
    } else if dots == 3 && colons <= 1 {
        Ok(IPType::IPV6)
    } else {
        Err(ParseError::UnknownAddressType)
    }
}

/// The family of an address string, from its colon and dot counts alone.
pub open spec fn ip_type_spec(s: Seq<char>) -> Result<IPType, ParseError> {
    family_of_counts(count_of(s, ':'), count_of(s, '.'))
}

/// Classifies an address string by the colons and dots it holds.
///
/// As [`family_of_counts`] explains, every string is classified as IPv4.
pub fn ip_type(string: &String) -> (r: Result<IPType, ParseError>)
    ensures
        r == ip_type_spec(string@),
{
    let mut colons: usize = 0;
    let mut dots: usize = 0;
    let n: usize = string.as_str().unicode_len();
    for ch in it: string.as_str().chars()
        invariant
            it.seq() == string@,
            n == string@.len(),
            colons == count_of(string@.take(it.index() as int), ':'),
            dots == count_of(string@.take(it.index() as int), '.'),
            colons <= it.index(),
            dots <= it.index(),
    {
        proof {
            let i = it.index() as int;
            assert(string@.take(i + 1).drop_last() == string@.take(i));
            assert(string@.take(i + 1).last() == ch);
        }
        if ch == ':' {
            colons += 1;
        } else if ch == '.' {
            dots += 1;
        }
    }
    proof {
        assert(string@.take(string@.len() as int) == string@);
    }
    if colons >= 5 || colons <= 6 {
        Ok(IPType::IPV4)
    } else if dots == 3 && colons <= 1 {
        Ok(IPType::IPV6)
    } else {
        Err(ParseError::UnknownAddressType)
    }
}

/// What an [`IPAddr`] holds, as plain mathematical values.
pub struct AddressRecord {
    pub host: Seq<char>,
    pub port: Option<u16>,
    pub family: IPType,
}

impl AddressRecord {
    /// The host is not empty, and the family is the one that the host text
    /// alone is classified as.
    pub open spec fn wf(self) -> bool {
        self.host.len() > 0 && ip_type_spec(self.host) == Ok::<IPType, ParseError>(self.family)
    }
}

/// One parsed network address: the host text, the port if one was given, and
/// the family the text was classified as.
#[derive(Debug)]
pub struct IPAddr {
    pub ip: String,
    pub port: Option<u16>,
    pub iptype: IPType,
}

impl View for IPAddr {
    type V = AddressRecord;

    open spec fn view(&self) -> AddressRecord {
        AddressRecord { host: self.ip@, port: self.port, family: self.iptype }
    }
}

impl DeepView for IPAddr {
    type V = AddressRecord;

    open spec fn deep_view(&self) -> AddressRecord {
        self@
    }
}

impl Default for IPAddr {
    /// The empty address: no host, no port, IPv4. It is not well formed.
    fn default() -> (r: Self)
        ensures
            r@ == (AddressRecord { host: Seq::empty(), port: None, family: IPType::IPV4 }),
    {
        IPAddr { ip: String::new(), port: None, iptype: IPType::IPV4 }
    }
}

impl Clone for IPAddr {
    fn clone(&self) -> (r: Self)
        ensures
            r == *self,
    {
        IPAddr { ip: self.ip.clone(), port: self.port, iptype: self.iptype }
    }
}

/// How many characters of `s` stand before its first colon; all of them if it
/// has none.
pub open spec fn host_len(s: Seq<char>) -> nat
    decreases s.len(),
{
    if s.len() == 0 || s[0] == ':' {
        0
    } else {
        1 + host_len(s.drop_first())
    }
}

/// The host text of an address string: what stands before the first colon.
pub open spec fn host_part(s: Seq<char>) -> Seq<char> {
    s.take(host_len(s) as int)
}

/// The port text of an address string: all that follows the first colon,
/// further colons included. Empty if there is no colon.
pub open spec fn port_part(s: Seq<char>) -> Seq<char> {
    if host_len(s) < s.len() {
        s.skip(host_len(s) as int + 1)
    } else {
        Seq::empty()
    }
}

/// The record that a string of the given family denotes, or the reason it
/// denotes none. IPv6 is not handled. For IPv4, an empty port text means no
/// port, and any other port text must denote a port.
pub open spec fn parse_as_spec(family: IPType, s: Seq<char>) -> Result<AddressRecord, ParseError> {
    match family {
        IPType::IPV6 => Err(ParseError::UnsupportedFamily),
        IPType::IPV4 => {
            if port_part(s).len() == 0 {
                Ok(AddressRecord { host: host_part(s), port: None, family })
            } else {
                match port_spec(port_part(s)) {
                    Some(p) => Ok(AddressRecord { host: host_part(s), port: Some(p), family }),
                    None => Err(ParseError::InvalidPort),
                }
            }
        },
    }
}

/// The record that one address string denotes, or the reason it denotes none.
pub open spec fn parse_one_spec(s: Seq<char>) -> Result<AddressRecord, ParseError> {
    match ip_type_spec(s) {
        Err(e) => Err(e),
        Ok(family) => parse_as_spec(family, s),
    }
}

/// The records that a list of address strings denotes, in the order of the
/// strings; or the error of the first string that denotes none.
pub open spec fn parse_all_spec(strings: Seq<Seq<char>>) -> Result<Seq<AddressRecord>, ParseError>
    decreases strings.len(),
{
    if strings.len() == 0 {
        Ok(Seq::empty())
    } else {
        match parse_all_spec(strings.drop_last()) {
            Err(e) => Err(e),
            Ok(records) => match parse_one_spec(strings.last()) {
                Err(e) => Err(e),
                Ok(record) => Ok(records.push(record)),
            },
        }
    }
}

/// The sole element of `records`, if there is exactly one.
pub open spec fn exactly_one_spec(records: Seq<IPAddr>) -> Result<IPAddr, ParseError> {
    if records.len() == 1 {
        Ok(records[0])
    } else {
        Err(ParseError::ExpectedSingleAddress)
    }
}

/// A host and a port written as `host:port`, the port in decimal.
pub open spec fn rendered(host: Seq<char>, port: u16) -> Seq<char> {
    host + seq![':'] + decimal_text(port as nat)
}

/// Conversion of a list of addresses into the single address it stands for.
pub trait Convert {
    fn simplify(&self) -> Result<IPAddr, ParseError>;
}

impl Convert for Vec<IPAddr> {
    /// The sole address of the list. A list that is empty or holds several
    /// addresses is an error.
    fn simplify(&self) -> (r: Result<IPAddr, ParseError>)
        ensures
            r == exactly_one_spec(self@),
    {
        if self.len() != 1 {
            return Err(ParseError::ExpectedSingleAddress);
        }
        Ok(self[0].clone())
    }
}

impl IPAddr {
    /// Whether the address is well formed: see [`AddressRecord::wf`].
    pub open spec fn wf(&self) -> bool {
        self@.wf()
    }

    /// The port to listen on: the one the address names, else
    /// [`DEFAULT_PORT`].
    pub fn port_or_default(&self) -> (p: u16)
        ensures
            p == match self.port {
                Some(port) => port,
                None => DEFAULT_PORT,
            },
    {
        match self.port {
            Some(port) => port,
            None => DEFAULT_PORT,
        }
    }

    /// Parses an address string that was classified as `family`.
    pub fn parse_as(family: IPType, string: &String) -> (r: Result<IPAddr, ParseError>)
        ensures
            modelled(r) == parse_as_spec(family, string@),
    {
        match family {
            IPType::IPV6 => Err(ParseError::UnsupportedFamily),
            IPType::IPV4 => {
                let text: &str = string.as_str();
                let n: usize = text.unicode_len();
                let mut split: usize = 0;
                let mut found: bool = false;
                for ch in it: text.chars()
                    invariant
                        it.seq() == string@,
                        n == string@.len(),
                        split <= it.index(),
                        !found ==> split == it.index(),
                        found ==> split < n && string@[split as int] == ':',
                        forall|i: int| 0 <= i < split ==> string@[i] != ':',
                {
                    if !found {
                        if ch == ':' {
                            found = true;
                        } else {
                            split += 1;
                        }
                    }
                }
                proof {
                    lemma_host_len_is(string@, split as int);
                }
                let host: String = text.substring_char(0, split).to_owned();
                if !found || split + 1 == n {
                    Ok(IPAddr { ip: host, port: None, iptype: family })
                } else {
                    match parse_port(text.substring_char(split + 1, n)) {
                        Some(p) => Ok(IPAddr { ip: host, port: Some(p), iptype: family }),
                        None => Err(ParseError::InvalidPort),
                    }
                }
            },
        }
    }

    /// Parses one address string: classifies it, then splits it into host
    /// and port. The record is well formed unless the host came out empty.
    pub fn parse_one(string: &String) -> (r: Result<IPAddr, ParseError>)
        ensures
            modelled(r) == parse_one_spec(string@),
            r matches Ok(addr) ==> (addr.wf() <==> string@.len() > 0 && string@[0] != ':'),
    {
        proof {
            if parse_one_spec(string@) is Ok {
                lemma_parsed_record_wf(string@);
            }
        }
        match ip_type(string) {
            Ok(family) => IPAddr::parse_as(family, string),
            Err(e) => Err(e),
        }
    }

    /// Parses every string of the list, in order. The first string that does
    /// not parse ends the call with its error; there is no partial result.
    pub fn from_str(stringvec: &Vec<String>) -> (r: Result<Vec<IPAddr>, ParseError>)
        ensures
            modelled(r) == parse_all_spec(stringvec.deep_view()),
    {
        let mut result: Vec<IPAddr> = Vec::new();
        let ghost strings = stringvec.deep_view();
        let mut i: usize = 0;
        proof {
            assert(result.deep_view() =~= Seq::<AddressRecord>::empty());
        }
        while i < stringvec.len()
            invariant
                i <= stringvec.len(),
                strings == stringvec.deep_view(),
                parse_all_spec(strings.take(i as int)) == Ok::<Seq<AddressRecord>, ParseError>(
                    result.deep_view(),
                ),
            decreases stringvec.len() - i,
        {
            proof {
                assert(strings.take(i + 1).drop_last() == strings.take(i as int));
                assert(strings.take(i + 1).last() == stringvec[i as int]@);
            }
            match IPAddr::parse_one(&stringvec[i]) {
                Ok(addr) => {
                    let ghost before = result.deep_view();
                    result.push(addr);
                    proof {
                        assert(result.deep_view() =~= before.push(addr@));
                    }
                },
                Err(e) => {
                    proof {
                        lemma_parse_all_fails_early(strings, i + 1);
                    }
                    return Err(e);
                },
            }
            i += 1;
        }
        proof {
            assert(strings.take(i as int) == strings);
        }
        Ok(result)
    }
}

/// `k` is where the host text of `s` ends: no colon stands before `k`, and at
/// `k` stands a colon or the end of the string.
pub proof fn lemma_host_len_is(s: Seq<char>, k: int)
    requires
        0 <= k <= s.len(),
        forall|i: int| 0 <= i < k ==> s[i] != ':',
        k < s.len() ==> s[k] == ':',
    ensures
        host_len(s) == k,
    decreases s.len(),
{
    if k > 0 {
        let rest = s.drop_first();
        assert forall|i: int| 0 <= i < k - 1 implies rest[i] != ':' by {
            assert(rest[i] == s[i + 1]);
        }
        lemma_host_len_is(rest, k - 1);
    }
}

/// The host text ends within the string, holds no colon, and is followed by
/// a colon unless it ends the string.
pub proof fn lemma_host_len_splits(s: Seq<char>)
    ensures
        host_len(s) <= s.len(),
        forall|i: int| 0 <= i < host_len(s) ==> s[i] != ':',
        host_len(s) < s.len() ==> s[host_len(s) as int] == ':',
    decreases s.len(),
{
    if s.len() > 0 && s[0] != ':' {
        let rest = s.drop_first();
        lemma_host_len_splits(rest);
        assert forall|i: int| 0 <= i < host_len(s) implies s[i] != ':' by {
            if i > 0 {
                assert(s[i] == rest[i - 1]);
            }
        }
    }
}

/// The colon test of the classification holds of every count, so every
/// string is classified as IPv4: classification never fails and never yields
/// IPv6.
pub proof fn lemma_ip_type_is_always_ipv4(s: Seq<char>)
    ensures
        ip_type_spec(s) == Ok::<IPType, ParseError>(IPType::IPV4),
{
}

/// A string without a colon and with exactly three dots is classified as
/// IPv4.
pub proof fn lemma_dotted_quad_is_ipv4(s: Seq<char>)
    requires
        count_of(s, ':') == 0,
        count_of(s, '.') == 3,
    ensures
        ip_type_spec(s) == Ok::<IPType, ParseError>(IPType::IPV4),
{
}

/// A parsed record is well formed unless the string was empty or began with
/// a colon, which leaves the host empty.
pub proof fn lemma_parsed_record_wf(s: Seq<char>)
    requires
        parse_one_spec(s) is Ok,
    ensures
        parse_one_spec(s)->Ok_0.wf() <==> s.len() > 0 && s[0] != ':',
{
    lemma_ip_type_is_always_ipv4(host_part(s));
    lemma_host_len_splits(s);
}

/// Once a prefix of the list fails, the whole list fails with the same error.
pub proof fn lemma_parse_all_fails_early(strings: Seq<Seq<char>>, k: int)
    requires
        0 <= k <= strings.len(),
        parse_all_spec(strings.take(k)) is Err,
    ensures
        parse_all_spec(strings) == parse_all_spec(strings.take(k)),
    decreases strings.len(),
{
    if k == strings.len() {
        assert(strings.take(k) == strings);
    } else {
        assert(strings.drop_last().take(k) == strings.take(k));
        lemma_parse_all_fails_early(strings.drop_last(), k);
    }
}

/// Where every string of a list parses, the list parses to as many records,
/// and the record at each position is that of the string at that position.
pub proof fn lemma_parse_all_keeps_order(strings: Seq<Seq<char>>)
    requires
        forall|i: int| 0 <= i < strings.len() ==> (#[trigger] parse_one_spec(strings[i])) is Ok,
    ensures
        parse_all_spec(strings) is Ok,
        parse_all_spec(strings)->Ok_0.len() == strings.len(),
        forall|i: int|
            0 <= i < strings.len() ==> parse_one_spec(#[trigger] strings[i]) == Ok::<
                AddressRecord,
                ParseError,
            >(parse_all_spec(strings)->Ok_0[i]),
    decreases strings.len(),
{
    if strings.len() > 0 {
        let front = strings.drop_last();
        assert forall|i: int| 0 <= i < front.len() implies (#[trigger] parse_one_spec(
            front[i],
        )) is Ok by {
            assert(front[i] == strings[i]);
        }
        lemma_parse_all_keeps_order(front);
        assert(parse_one_spec(strings[strings.len() - 1]) is Ok);
        let records = parse_all_spec(strings)->Ok_0;
        assert forall|i: int| 0 <= i < strings.len() implies parse_one_spec(
            #[trigger] strings[i],
        ) == Ok::<AddressRecord, ParseError>(records[i]) by {
            if i < front.len() {
                assert(front[i] == strings[i]);
            }
        }
    }
}

/// Where the string at `k` is the first of a list that does not parse, the
/// list fails with that string's error.
pub proof fn lemma_parse_all_first_failure(strings: Seq<Seq<char>>, k: int)
    requires
        0 <= k < strings.len(),
        forall|i: int| 0 <= i < k ==> (#[trigger] parse_one_spec(strings[i])) is Ok,
        parse_one_spec(strings[k]) is Err,
    ensures
        parse_all_spec(strings) == Err::<Seq<AddressRecord>, ParseError>(
            parse_one_spec(strings[k])->Err_0,
        ),
{
    let front = strings.take(k);
    assert forall|i: int| 0 <= i < front.len() implies (#[trigger] parse_one_spec(
        front[i],
    )) is Ok by {
        assert(front[i] == strings[i]);
    }
    lemma_parse_all_keeps_order(front);
    assert(strings.take(k + 1).drop_last() == front);
    assert(strings.take(k + 1).last() == strings[k]);
    lemma_parse_all_fails_early(strings, k + 1);
}

/// A host without a colon and a port, written as `host:port`, parse back to
/// that host and that port.
pub proof fn lemma_render_parse_round_trip(host: Seq<char>, port: u16)
    requires
        forall|i: int| 0 <= i < host.len() ==> host[i] != ':',
    ensures
        parse_one_spec(rendered(host, port)) == Ok::<AddressRecord, ParseError>(
            AddressRecord { host, port: Some(port), family: IPType::IPV4 },
        ),
{
    let s = rendered(host, port);
    let k = host.len() as int;
    lemma_decimal_text_denotes(port as nat);
    lemma_port_text_round_trip(port);
    assert forall|i: int| 0 <= i < k implies s[i] != ':' by {
        assert(s[i] == host[i]);
    }
    assert(s[k] == ':');
    lemma_host_len_is(s, k);
    assert(host_part(s) =~= host);
    assert(port_part(s) =~= decimal_text(port as nat));
}

} // verus!
