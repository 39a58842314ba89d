//! IGMP messages: the fixed headers of the three protocol versions, and the
//! parser that tells the messages apart.

use vstd::prelude::*;

verus! {

/// Why a message could not be parsed.
#[derive(Clone, Copy, Debug, PartialEq, Eq, Structural)]
pub enum ParseError {
    /// The message is of a type that is not known.
    NotSupported,
    /// The message holds something that its type does not allow.
    NotExpected,
    /// The message's checksum does not fit its bytes.
    Checksum,
    /// The message is shorter than its type or its own counts require.
    Format,
}

/// The types of IGMP messages.
#[derive(Clone, Copy, Debug, PartialEq, Eq, Structural)]
pub enum IgmpMessageType {
    MembershipQuery,
    MembershipReportV1,
    MembershipReportV2,
    MembershipReportV3,
    LeaveGroup,
}

impl IgmpMessageType {
    pub const MEMBERSHIP_QUERY: u8 = 0x11;

    pub const MEMBERSHIP_REPORT_V1: u8 = 0x12;

    pub const MEMBERSHIP_REPORT_V2: u8 = 0x16;

    pub const MEMBERSHIP_REPORT_V3: u8 = 0x22;

    pub const LEAVE_GROUP: u8 = 0x17;

    /// The type's number on the wire.
    pub open spec fn code(self) -> u8 {
        match self {
            IgmpMessageType::MembershipQuery => 0x11,
            IgmpMessageType::MembershipReportV1 => 0x12,
            IgmpMessageType::MembershipReportV2 => 0x16,
            IgmpMessageType::MembershipReportV3 => 0x22,
            IgmpMessageType::LeaveGroup => 0x17,
        }
    }

    /// The type that has the number `code` on the wire.
    pub open spec fn of_code(code: u8) -> Option<IgmpMessageType> {
        if code == 0x11 {
            Some(IgmpMessageType::MembershipQuery)
        } else if code == 0x12 {
            Some(IgmpMessageType::MembershipReportV1)
        } else if code == 0x16 {
            Some(IgmpMessageType::MembershipReportV2)
        } else if code == 0x22 {
            Some(IgmpMessageType::MembershipReportV3)
        } else if code == 0x17 {
            Some(IgmpMessageType::LeaveGroup)
        } else {
            None
        }
    }

    /// The type that has the number `code` on the wire, if one has.
    pub fn from_u8(code: u8) -> (kind: Option<IgmpMessageType>)
        ensures
            kind == Self::of_code(code),
    {
        if code == Self::MEMBERSHIP_QUERY {
            Some(IgmpMessageType::MembershipQuery)
        } else if code == Self::MEMBERSHIP_REPORT_V1 {
            Some(IgmpMessageType::MembershipReportV1)
        } else if code == Self::MEMBERSHIP_REPORT_V2 {
            Some(IgmpMessageType::MembershipReportV2)
        } else if code == Self::MEMBERSHIP_REPORT_V3 {
            Some(IgmpMessageType::MembershipReportV3)
        } else if code == Self::LEAVE_GROUP {
            Some(IgmpMessageType::LeaveGroup)
        } else {
            None
        }
    }

    /// The type's number on the wire.
    pub fn into_u8(self) -> (code: u8)
        ensures
            code == self.code(),
            Self::of_code(code) == Some(self),
    {
        match self {
            IgmpMessageType::MembershipQuery => Self::MEMBERSHIP_QUERY,
            IgmpMessageType::MembershipReportV1 => Self::MEMBERSHIP_REPORT_V1,
            IgmpMessageType::MembershipReportV2 => Self::MEMBERSHIP_REPORT_V2,
            IgmpMessageType::MembershipReportV3 => Self::MEMBERSHIP_REPORT_V3,
            IgmpMessageType::LeaveGroup => Self::LEAVE_GROUP,
        }
    }
}

/// The types of the group records of a version 3 report.
#[derive(Clone, Copy, Debug, PartialEq, Eq, Structural)]
pub enum IgmpGroupRecordType {
    ModeIsInclude,
    ModeIsExclude,
    ChangeToIncludeMode,
    ChangeToExcludeMode,
    AllowNewSources,
    BlockOldSources,
}

impl IgmpGroupRecordType {
    /// The type's number on the wire.
    pub open spec fn code(self) -> u8 {
        match self {
            IgmpGroupRecordType::ModeIsInclude => 0x01,
            IgmpGroupRecordType::ModeIsExclude => 0x02,
            IgmpGroupRecordType::ChangeToIncludeMode => 0x03,
            IgmpGroupRecordType::ChangeToExcludeMode => 0x04,
            IgmpGroupRecordType::AllowNewSources => 0x05,
            IgmpGroupRecordType::BlockOldSources => 0x06,
        }
    }

    /// The type that has the number `code` on the wire.
    pub open spec fn of_code(code: u8) -> Option<IgmpGroupRecordType> {
        if code == 0x01 {
            Some(IgmpGroupRecordType::ModeIsInclude)
        } else if code == 0x02 {
            Some(IgmpGroupRecordType::ModeIsExclude)
        } else if code == 0x03 {
            Some(IgmpGroupRecordType::ChangeToIncludeMode)
        } else if code == 0x04 {
            Some(IgmpGroupRecordType::ChangeToExcludeMode)
        } else if code == 0x05 {
            Some(IgmpGroupRecordType::AllowNewSources)
        } else if code == 0x06 {
            Some(IgmpGroupRecordType::BlockOldSources)
        } else {
            None
        }
    }

    /// The type that has the number `code` on the wire, if one has.
    pub fn from_u8(code: u8) -> (kind: Option<IgmpGroupRecordType>)
        ensures
            kind == Self::of_code(code),
    {
        if code == 0x01 {
            Some(IgmpGroupRecordType::ModeIsInclude)
        } else if code == 0x02 {
            Some(IgmpGroupRecordType::ModeIsExclude)
        } else if code == 0x03 {
            Some(IgmpGroupRecordType::ChangeToIncludeMode)
        } else if code == 0x04 {
            Some(IgmpGroupRecordType::ChangeToExcludeMode)
        } else if code == 0x05 {
            Some(IgmpGroupRecordType::AllowNewSources)
        } else if code == 0x06 {
            Some(IgmpGroupRecordType::BlockOldSources)
        } else {
            None
        }
    }

    /// The type's number on the wire.
    pub fn into_u8(self) -> (code: u8)
        ensures
            code == self.code(),
            Self::of_code(code) == Some(self),
    {
        match self {
            IgmpGroupRecordType::ModeIsInclude => 0x01,
            IgmpGroupRecordType::ModeIsExclude => 0x02,
            IgmpGroupRecordType::ChangeToIncludeMode => 0x03,
            IgmpGroupRecordType::ChangeToExcludeMode => 0x04,
            IgmpGroupRecordType::AllowNewSources => 0x05,
            IgmpGroupRecordType::BlockOldSources => 0x06,
        }
    }
}

/// The two bytes of `value` in network order: the high byte first. They are
/// had from `zerocopy::byteorder::U16::<NetworkEndian>::new`, which stores the
/// number big-endian, and the conversion of that type into its bytes.
#[verifier::external_body]
fn network_bytes(value: u16) -> (bytes: [u8; 2])
    ensures
        bytes[0] == value / 256,
        bytes[1] == value % 256,
{
    <[u8; 2]>::from(zerocopy::byteorder::U16::<zerocopy::byteorder::NetworkEndian>::new(value))
}

/// The number that two bytes in network order write. It is had from
/// `zerocopy::byteorder::U16::<NetworkEndian>::from_bytes` and `get`, which
/// reads the bytes big-endian.
#[verifier::external_body]
fn network_value(bytes: [u8; 2]) -> (value: u16)
    ensures
        value == bytes[0] * 256 + bytes[1],
{
    zerocopy::byteorder::U16::<zerocopy::byteorder::NetworkEndian>::from_bytes(bytes).get()
}

/// The time in seconds that the code `code` of a version 3 query stands for.
/// A code below 128 is the time itself. Any other code is a small floating
/// point number: one marker bit, three bits of exponent, four of mantissa.
pub open spec fn decoded_time(code: u8) -> u32 {
    if code < 128 {
        code as u32
    } else {
        (((code as u32) & 0x0f) | 0x10) << ((((code as u32) >> 4) & 0x07) + 3)
    }
}

/// The greatest time that a code can stand for.
pub const MAX_CODED_TIME: u32 = 31744;

/// The exponent of the code for the time `value`, which must be at least 128:
/// the least exponent under which the time fits the five bits of marker and
/// mantissa.
pub open spec fn code_exponent(value: u32, from: u32) -> u32
    decreases 7 - from,
{
    if from >= 7 || (value >> (from + 3)) < 32 {
        from
    } else {
        code_exponent(value, (from + 1) as u32)
    }
}

/// The code for the time `value`: the time itself below 128; above it the
/// floating point code whose time is `value` with its low bits cut off.
/// There is no code for a time above `MAX_CODED_TIME`.
pub open spec fn time_code(value: u32) -> Option<u8> {
    if value < 128 {
        Some(value as u8)
    } else if value > MAX_CODED_TIME {
        None
    } else {
        let exponent = code_exponent(value, 0);
        Some((0x80 | (exponent << 4) | ((value >> (exponent + 3)) & 0x0f)) as u8)
    }
}

/// Reads the time that a code stands for.
pub fn parse_v3_possible_floating_point(code: u8) -> (time: u32)
    ensures
        time == decoded_time(code),
{
    if code < 128 {
        code as u32
    } else {
        let mantissa: u32 = (code as u32) & 0x0f;
        let exponent: u32 = ((code as u32) >> 4) & 0x07;
        assert(exponent <= 7) by (bit_vector)
            requires
                exponent == ((code as u32) >> 4) & 0x07,
        ;
        (mantissa | 0x10) << (exponent + 3)
    }
}

/// Finds the code for a time.
pub fn make_v3_possible_floating_point(value: u32) -> (code: Option<u8>)
    ensures
        code == time_code(value),
        code is Some <==> value <= MAX_CODED_TIME,
{
    if value < 128 {
        Some(value as u8)
    } else if value > MAX_CODED_TIME {
        None
    } else {
        let mut exponent: u32 = 0;
        while exponent < 7 && (value >> (exponent + 3)) >= 32
            invariant
                exponent <= 7,
                code_exponent(value, exponent) == code_exponent(value, 0),
            decreases 7 - exponent,
        {
            exponent += 1;
        }
        let mantissa: u32 = (value >> (exponent + 3)) & 0x0f;
        let wide: u32 = 0x80 | (exponent << 4) | mantissa;
        assert(wide <= 255) by (bit_vector)
            requires
                exponent <= 7,
                mantissa == (value >> (exponent + 3)) & 0x0f,
                wide == 0x80 | (exponent << 4) | mantissa,
        ;
        Some(wide as u8)
    }
}

/// Every code is the code of its own time: a time that was read from a code
/// is written back as that code.
pub proof fn law_code_of_decoded_time(code: u8)
    ensures
        time_code(decoded_time(code)) == Some(code),
{
    if code >= 128 {
        let wide: u32 = code as u32;
        let mantissa: u32 = wide & 0x0f;
        let exponent: u32 = (wide >> 4) & 0x07;
        let time: u32 = (mantissa | 0x10) << (exponent + 3);
        assert(time == decoded_time(code));
        assert({
            &&& exponent <= 7
            &&& 128 <= time <= 31744
            &&& (time >> (exponent + 3)) < 32
            &&& (time >> (exponent + 3)) & 0x0f == mantissa
            &&& 0x80 | (exponent << 4) | mantissa == wide
            &&& exponent > 0 ==> (time >> 3) >= 32
            &&& exponent > 1 ==> (time >> 4) >= 32
            &&& exponent > 2 ==> (time >> 5) >= 32
            &&& exponent > 3 ==> (time >> 6) >= 32
            &&& exponent > 4 ==> (time >> 7) >= 32
            &&& exponent > 5 ==> (time >> 8) >= 32
            &&& exponent > 6 ==> (time >> 9) >= 32
        }) by (bit_vector)
            requires
                128 <= wide <= 255,
                mantissa == wide & 0x0f,
                exponent == (wide >> 4) & 0x07,
                time == (mantissa | 0x10) << (exponent + 3),
        ;
        reveal_with_fuel(code_exponent, 9);
        assert(code_exponent(time, 0) == exponent);
    }
}

/// An IPv4 address, as its four bytes in network order.
#[derive(Clone, Copy, Debug, PartialEq, Eq)]
pub struct Ipv4Addr {
    pub bytes: [u8; 4],
}

impl Ipv4Addr {
    /// The address with the given bytes.
    pub fn new(bytes: [u8; 4]) -> (address: Ipv4Addr)
        ensures
            address.bytes == bytes,
    {
        Ipv4Addr { bytes }
    }
}

/// The fixed part of a version 3 membership query.
#[derive(Clone, Copy, Debug)]
pub struct MembershipQueryData {
    pub group_address: Ipv4Addr,
    pub sqrv: u8,
    pub qqic: u8,
    pub number_of_sources: [u8; 2],
}

impl MembershipQueryData {
    /// The bit that tells routers to suppress their own processing.
    pub const S_FLAG: u8 = 8;

    /// The bits of the querier's robustness variable.
    pub const QRV_MSK: u8 = 0x07;

    /// The robustness variable to use where a query gives none.
    pub const DEFAULT_QRV: u8 = 2;

    /// The query interval to use where a query gives none, in seconds.
    pub const DEFAULT_QUERY_INTERVAL_SECS: u64 = 1250;

    /// How many source addresses follow the fixed part.
    pub fn number_of_sources(self) -> (count: u16)
        ensures
            count == self.number_of_sources[0] * 256 + self.number_of_sources[1],
    {
        network_value(self.number_of_sources)
    }

    /// Sets the number of source addresses that follow.
    pub fn set_number_of_sources(&mut self, val: u16)
        ensures
            final(self).number_of_sources[0] == val / 256,
            final(self).number_of_sources[1] == val % 256,
            final(self).group_address == old(self).group_address,
            final(self).sqrv == old(self).sqrv,
            final(self).qqic == old(self).qqic,
    {
        self.number_of_sources = network_bytes(val);
    }

    /// Whether routers that receive the query are to suppress the timer
    /// updates that they would make on hearing it.
    pub fn suppress_router_side_processing(self) -> (suppress: bool)
        ensures
            suppress == (self.sqrv & 8 != 0),
    {
        (self.sqrv & Self::S_FLAG) != 0
    }

    /// Sets or clears the suppress flag. The other bits stay.
    pub fn set_suppress_router_side_processing(&mut self, val: bool)
        ensures
            final(self).sqrv == if val {
                old(self).sqrv | 8
            } else {
                old(self).sqrv & !8u8
            },
            (final(self).sqrv & 8 != 0) == val,
            final(self).sqrv & 0x07 == old(self).sqrv & 0x07,
            final(self).group_address == old(self).group_address,
            final(self).qqic == old(self).qqic,
            final(self).number_of_sources == old(self).number_of_sources,
    {
        let before: u8 = self.sqrv;
        if val {
            self.sqrv = before | Self::S_FLAG;
        } else {
            self.sqrv = before & !(Self::S_FLAG);
        }
        let after: u8 = self.sqrv;
        assert((after & 8 != 0) == val && after & 0x07 == before & 0x07) by (bit_vector)
            requires
                after == if val {
                    before | 8
                } else {
                    before & !8u8
                },
        ;
    }

    /// The querier's robustness variable; zero where it gives none.
    pub fn querier_robustness_variable(self) -> (variable: u8)
        ensures
            variable == self.sqrv & 0x07,
            variable <= 7,
    {
        let sqrv: u8 = self.sqrv;
        assert(sqrv & 0x07 <= 7) by (bit_vector);
        self.sqrv & Self::QRV_MSK
    }

    /// Sets the bits of `val` in the robustness variable. Bits that are set
    /// already stay set: on a fresh header this stores `val`.
    pub fn set_querier_robustness_variable(&mut self, val: u8)
        ensures
            final(self).sqrv == old(self).sqrv | (val & 0x07),
            old(self).sqrv & 0x07 == 0 ==> final(self).sqrv & 0x07 == val & 0x07,
            (final(self).sqrv & 8 != 0) == (old(self).sqrv & 8 != 0),
            final(self).group_address == old(self).group_address,
            final(self).qqic == old(self).qqic,
            final(self).number_of_sources == old(self).number_of_sources,
    {
        let before: u8 = self.sqrv;
        self.sqrv = before | (val & Self::QRV_MSK);
        let after: u8 = self.sqrv;
        assert((before & 0x07 == 0 ==> after & 0x07 == val & 0x07) && ((after & 8 != 0) == (before
            & 8 != 0))) by (bit_vector)
            requires
                after == before | (val & 0x07),
        ;
    }

    /// The querier's query interval, in seconds.
    pub fn querier_query_interval(self) -> (seconds: u64)
        ensures
            seconds == decoded_time(self.qqic),
    {
        parse_v3_possible_floating_point(self.qqic) as u64
    }

    /// Sets the querier's query interval to `seconds`, which must have a code.
    pub fn set_querier_query_interval(&mut self, seconds: u64)
        requires
            seconds <= MAX_CODED_TIME,
        ensures
            Some(final(self).qqic) == time_code(seconds as u32),
            final(self).group_address == old(self).group_address,
            final(self).sqrv == old(self).sqrv,
            final(self).number_of_sources == old(self).number_of_sources,
    {
        match make_v3_possible_floating_point(seconds as u32) {
            Some(code) => {
                self.qqic = code;
            },
            None => {},
        }
    }
}

/// The fixed part of a version 3 membership report.
#[derive(Clone, Copy, Debug)]
pub struct MembershipReportV3Data {
    pub reserved: [u8; 2],
    pub number_of_group_records: [u8; 2],
}

impl MembershipReportV3Data {
    /// How many group records follow the fixed part.
    pub fn number_of_group_records(self) -> (count: u16)
        ensures
            count == self.number_of_group_records[0] * 256 + self.number_of_group_records[1],
    {
        network_value(self.number_of_group_records)
    }

    /// Sets the number of group records that follow.
    pub fn set_number_of_group_records(&mut self, val: u16)
        ensures
            final(self).number_of_group_records[0] == val / 256,
            final(self).number_of_group_records[1] == val % 256,
            final(self).reserved == old(self).reserved,
    {
        self.number_of_group_records = network_bytes(val);
    }
}

/// The fixed part of a group record of a version 3 report. The addresses of
/// the record's sources follow it.
#[derive(Clone, Copy, Debug)]
pub struct GroupRecordHeader {
    pub record_type: u8,
    pub aux_data_len: u8,
    pub number_of_sources: [u8; 2],
    pub multicast_address: Ipv4Addr,
}

impl GroupRecordHeader {
    /// How many source addresses follow the fixed part.
    pub fn number_of_sources(self) -> (count: u16)
        ensures
            count == self.number_of_sources[0] * 256 + self.number_of_sources[1],
    {
        network_value(self.number_of_sources)
    }

    /// Sets the number of source addresses that follow.
    pub fn set_number_of_sources(&mut self, val: u16)
        ensures
            final(self).number_of_sources[0] == val / 256,
            final(self).number_of_sources[1] == val % 256,
            final(self).record_type == old(self).record_type,
            final(self).aux_data_len == old(self).aux_data_len,
            final(self).multicast_address == old(self).multicast_address,
    {
        self.number_of_sources = network_bytes(val);
    }

    /// The record's type, if its number is that of a known type.
    pub fn record_type(self) -> (kind: Option<IgmpGroupRecordType>)
        ensures
            kind == IgmpGroupRecordType::of_code(self.record_type),
    {
        IgmpGroupRecordType::from_u8(self.record_type)
    }

    /// Sets the record's type.
    pub fn set_record_type(&mut self, val: IgmpGroupRecordType)
        ensures
            final(self).record_type == val.code(),
            final(self).aux_data_len == old(self).aux_data_len,
            final(self).number_of_sources == old(self).number_of_sources,
            final(self).multicast_address == old(self).multicast_address,
    {
        self.record_type = val.into_u8();
    }
}

/// What every IGMP message starts with.
#[derive(Clone, Copy, Debug)]
pub struct HeaderPrefix {
    pub msg_type: u8,
    pub max_resp_code: u8,
    pub checksum: [u8; 2],
}

/// The length of the prefix, in bytes.
pub const PREFIX_LEN: usize = 4;

/// The length of an address, in bytes.
pub const ADDRESS_LEN: usize = 4;

/// The length of the fixed part of a version 3 query, in bytes.
pub const QUERY_DATA_LEN: usize = 8;

/// The length of the fixed part of a version 3 report, in bytes.
pub const REPORT_DATA_LEN: usize = 4;

/// The length of the fixed part of a group record, in bytes.
pub const RECORD_HEADER_LEN: usize = 8;

/// A group record of a version 3 report: its fixed part and the addresses of
/// its sources. The auxiliary data that may follow them on the wire is not
/// kept.
#[derive(Debug)]
pub struct GroupRecord {
    pub header: GroupRecordHeader,
    pub sources: Vec<Ipv4Addr>,
}

/// An IGMP message of any type.
#[derive(Debug)]
pub enum IgmpPacket {
    MembershipQueryV2 { prefix: HeaderPrefix, group_address: Ipv4Addr },
    MembershipQueryV3 { prefix: HeaderPrefix, header: MembershipQueryData, sources: Vec<Ipv4Addr> },
    MembershipReportV1 { prefix: HeaderPrefix, group_address: Ipv4Addr },
    MembershipReportV2 { prefix: HeaderPrefix, group_address: Ipv4Addr },
    /// A version 3 report holds its group records as they were read, and the
    /// bytes that they were read from: auxiliary data included.
    MembershipReportV3 {
        prefix: HeaderPrefix,
        header: MembershipReportV3Data,
        records: Vec<GroupRecord>,
        body: Vec<u8>,
    },
    LeaveGroup { prefix: HeaderPrefix, group_address: Ipv4Addr },
}

/// Whether `address` is what `bytes` holds at `at`.
pub open spec fn address_at(address: Ipv4Addr, bytes: Seq<u8>, at: int) -> bool {
    address.bytes@ == bytes.subrange(at, at + 4)
}

/// Whether `prefix` is what `bytes` starts with.
pub open spec fn prefix_of(prefix: HeaderPrefix, bytes: Seq<u8>) -> bool {
    &&& prefix.msg_type == bytes[0]
    &&& prefix.max_resp_code == bytes[1]
    &&& prefix.checksum@ == bytes.subrange(2, 4)
}

/// Whether `addresses` are the `addresses.len()` addresses that `bytes` holds
/// from `at` on.
pub open spec fn addresses_at(addresses: Seq<Ipv4Addr>, bytes: Seq<u8>, at: int) -> bool {
    forall|i: int|
        0 <= i < addresses.len() ==> address_at(#[trigger] addresses[i], bytes, at + 4 * i)
}

/// The number that the two bytes at `at` write in network order.
pub open spec fn count_at(bytes: Seq<u8>, at: int) -> int {
    bytes[at] * 256 + bytes[at + 1]
}

/// Where the group record that starts at `at` ends: after its fixed part, its
/// sources and its auxiliary data. Nothing where `bytes` is too short for it.
pub open spec fn record_end(bytes: Seq<u8>, at: int) -> Option<int> {
    if at + 8 <= bytes.len() {
        let end = at + 8 + 4 * count_at(bytes, at + 2) + 4 * bytes[at + 1];
        if end <= bytes.len() {
            Some(end)
        } else {
            None
        }
    } else {
        None
    }
}

/// Where the group record number `index` starts, the first one starting at
/// `base`. Nothing where `bytes` is too short for the records before it.
pub open spec fn record_start(bytes: Seq<u8>, base: int, index: nat) -> Option<int>
    decreases index,
{
    if index == 0 {
        Some(base)
    } else {
        match record_start(bytes, base, (index - 1) as nat) {
            Some(start) => record_end(bytes, start),
            None => None,
        }
    }
}

/// Whether `record` is the group record that `bytes` holds at `at`.
pub open spec fn record_at(record: GroupRecord, bytes: Seq<u8>, at: int) -> bool {
    &&& record.header.record_type == bytes[at]
    &&& record.header.aux_data_len == bytes[at + 1]
    &&& record.header.number_of_sources@ == bytes.subrange(at + 2, at + 4)
    &&& address_at(record.header.multicast_address, bytes, at + 4)
    &&& record.sources@.len() == count_at(bytes, at + 2)
    &&& addresses_at(record.sources@, bytes, at + 8)
}

/// Once the records run off the end, no later record starts.
pub proof fn lemma_record_start_stays_none(bytes: Seq<u8>, base: int, index: nat, later: nat)
    requires
        index <= later,
        record_start(bytes, base, index) is None,
    ensures
        record_start(bytes, base, later) is None,
    decreases later,
{
    if index < later {
        lemma_record_start_stays_none(bytes, base, index, (later - 1) as nat);
    }
}

/// No record starts before the first one does.
pub proof fn lemma_records_start_at_or_after(bytes: Seq<u8>, base: int, index: nat)
    requires
        0 <= base,
    ensures
        match record_start(bytes, base, index) {
            Some(start) => base <= start,
            None => true,
        },
    decreases index,
{
    if index > 0 {
        lemma_records_start_at_or_after(bytes, base, (index - 1) as nat);
    }
}

/// What kind of message `bytes` is, going by its type and its length: a query
/// longer than eight bytes is a version 3 query.
pub open spec fn message_kind(bytes: Seq<u8>) -> Result<(IgmpMessageType, bool), ParseError> {
    if bytes.len() < 4 {
        Err(ParseError::Format)
    } else {
        match IgmpMessageType::of_code(bytes[0]) {
            Some(kind) => Ok((kind, bytes.len() > 8)),
            None => Err(ParseError::NotSupported),
        }
    }
}

/// The sum of two 16-bit numbers in ones' complement arithmetic: a carry out
/// of the high bit comes back in at the low one.
pub open spec fn ones_add(a: int, b: int) -> int {
    if a + b > 0xffff {
        a + b - 0xffff
    } else {
        a + b
    }
}

/// The ones' complement sum of the 16-bit words of `bytes`, in network order.
/// A last byte without a partner counts as the high byte of a word.
pub open spec fn ones_sum(bytes: Seq<u8>) -> int
    decreases bytes.len(),
{
    if bytes.len() == 0 {
        0
    } else if bytes.len() % 2 == 1 {
        ones_add(ones_sum(bytes.drop_last()), bytes.last() * 256)
    } else {
        ones_add(
            ones_sum(bytes.take(bytes.len() - 2)),
            bytes[bytes.len() - 2] * 256 + bytes.last(),
        )
    }
}

/// Whether the checksum that `bytes` holds fits them: the ones' complement sum
/// of all their words, the checksum among them, is all ones.
pub open spec fn checksum_fits(bytes: Seq<u8>) -> bool {
    ones_sum(bytes) == 0xffff
}

/// How long the fixed part of a message of that kind is, after the prefix.
pub open spec fn fixed_len(kind: IgmpMessageType, long: bool) -> int {
    if kind == IgmpMessageType::MembershipQuery && long {
        8
    } else {
        4
    }
}

/// Why `bytes` is no IGMP message, if it is none.
///
/// A message needs its prefix and the fixed part of its type, and a checksum
/// that fits. A version 2 query, a version 1 or 2 report and a leave hold
/// a group address and nothing after it. A version 3 query holds as many
/// source addresses as it says. A version 3 report holds as many group records
/// as it says, and they fill it.
pub open spec fn parse_error(bytes: Seq<u8>) -> Option<ParseError> {
    match message_kind(bytes) {
        Err(error) => Some(error),
        Ok((kind, long)) => {
            if bytes.len() < 4 + fixed_len(kind, long) {
                Some(ParseError::Format)
            } else if !checksum_fits(bytes) {
                Some(ParseError::Checksum)
            } else if kind == IgmpMessageType::MembershipQuery && long {
                if bytes.len() < 12 + 4 * count_at(bytes, 10) {
                    Some(ParseError::Format)
                } else {
                    None
                }
            } else if kind == IgmpMessageType::MembershipReportV3 {
                if record_start(bytes, 8, count_at(bytes, 6) as nat) != Some(bytes.len() as int) {
                    Some(ParseError::Format)
                } else {
                    None
                }
            } else if bytes.len() > 8 {
                Some(ParseError::NotExpected)
            } else {
                None
            }
        },
    }
}

impl IgmpPacket {
    /// The message's prefix.
    pub open spec fn prefix(&self) -> HeaderPrefix {
        match self {
            IgmpPacket::MembershipQueryV2 { prefix, .. } => *prefix,
            IgmpPacket::MembershipQueryV3 { prefix, .. } => *prefix,
            IgmpPacket::MembershipReportV1 { prefix, .. } => *prefix,
            IgmpPacket::MembershipReportV2 { prefix, .. } => *prefix,
            IgmpPacket::MembershipReportV3 { prefix, .. } => *prefix,
            IgmpPacket::LeaveGroup { prefix, .. } => *prefix,
        }
    }

    /// Whether the message is what `bytes` holds: it is of the kind that the
    /// type and the length of `bytes` give, and each of its fields is what
    /// `bytes` holds at the field's place.
    pub open spec fn parsed_from(&self, bytes: Seq<u8>) -> bool {
        &&& prefix_of(self.prefix(), bytes)
        &&& match self {
            IgmpPacket::MembershipQueryV2 { group_address, .. } => {
                &&& message_kind(bytes) == Ok::<_, ParseError>(
                    (IgmpMessageType::MembershipQuery, false),
                )
                &&& address_at(*group_address, bytes, 4)
            },
            IgmpPacket::MembershipQueryV3 { header, sources, .. } => {
                &&& message_kind(bytes) == Ok::<_, ParseError>(
                    (IgmpMessageType::MembershipQuery, true),
                )
                &&& address_at(header.group_address, bytes, 4)
                &&& header.sqrv == bytes[8]
                &&& header.qqic == bytes[9]
                &&& header.number_of_sources@ == bytes.subrange(10, 12)
                &&& sources@.len() == count_at(bytes, 10)
                &&& addresses_at(sources@, bytes, 12)
            },
            IgmpPacket::MembershipReportV1 { group_address, .. } => {
                &&& IgmpMessageType::of_code(bytes[0]) == Some(IgmpMessageType::MembershipReportV1)
                &&& address_at(*group_address, bytes, 4)
            },
            IgmpPacket::MembershipReportV2 { group_address, .. } => {
                &&& IgmpMessageType::of_code(bytes[0]) == Some(IgmpMessageType::MembershipReportV2)
                &&& address_at(*group_address, bytes, 4)
            },
            IgmpPacket::MembershipReportV3 { header, records, body, .. } => {
                &&& IgmpMessageType::of_code(bytes[0]) == Some(IgmpMessageType::MembershipReportV3)
                &&& header.reserved@ == bytes.subrange(4, 6)
                &&& header.number_of_group_records@ == bytes.subrange(6, 8)
                &&& body@ == bytes.skip(8)
                &&& records@.len() == count_at(bytes, 6)
                &&& forall|i: int|
                    0 <= i < records@.len() ==> record_at(
                        #[trigger] records@[i],
                        bytes,
                        record_start(bytes, 8, i as nat).unwrap(),
                    )
            },
            IgmpPacket::LeaveGroup { group_address, .. } => {
                &&& IgmpMessageType::of_code(bytes[0]) == Some(IgmpMessageType::LeaveGroup)
                &&& address_at(*group_address, bytes, 4)
            },
        }
    }
}

/// The two bytes of `bytes` at `at`.
fn pair_at(bytes: &[u8], at: usize) -> (pair: [u8; 2])
    requires
        at + 2 <= bytes@.len(),
    ensures
        pair@ == bytes@.subrange(at as int, at + 2),
        pair[0] * 256 + pair[1] == count_at(bytes@, at as int),
{
    let pair: [u8; 2] = [bytes[at], bytes[at + 1]];
    assert(pair@ =~= bytes@.subrange(at as int, at + 2));
    pair
}

/// The address that `bytes` holds at `at`.
fn take_address(bytes: &[u8], at: usize) -> (address: Ipv4Addr)
    requires
        at + 4 <= bytes@.len(),
    ensures
        address_at(address, bytes@, at as int),
{
    let quad: [u8; 4] = [bytes[at], bytes[at + 1], bytes[at + 2], bytes[at + 3]];
    assert(quad@ =~= bytes@.subrange(at as int, at + 4));
    Ipv4Addr { bytes: quad }
}

/// The `count` addresses that `bytes` holds from `at` on.
fn take_addresses(bytes: &[u8], at: usize, count: usize) -> (addresses: Vec<Ipv4Addr>)
    requires
        at + 4 * count <= bytes@.len(),
    ensures
        addresses@.len() == count,
        addresses_at(addresses@, bytes@, at as int),
{
    let len: usize = bytes.len();
    let mut addresses: Vec<Ipv4Addr> = Vec::new();
    let mut taken: usize = 0;
    while taken < count
        invariant
            taken <= count,
            len == bytes@.len(),
            at + 4 * count <= bytes@.len(),
            addresses@.len() == taken,
            addresses_at(addresses@, bytes@, at as int),
        decreases count - taken,
    {
        let address = take_address(bytes, at + 4 * taken);
        addresses.push(address);
        taken += 1;
    }
    addresses
}

/// The bytes of `bytes` from `at` on.
fn copy_of(bytes: &[u8], at: usize) -> (copy: Vec<u8>)
    requires
        at <= bytes@.len(),
    ensures
        copy@ == bytes@.skip(at as int),
{
    let len: usize = bytes.len();
    let mut copy: Vec<u8> = Vec::new();
    let mut from: usize = at;
    while from < len
        invariant
            at <= from <= len == bytes@.len(),
            copy@ == bytes@.subrange(at as int, from as int),
        decreases len - from,
    {
        copy.push(bytes[from]);
        assert(copy@ =~= bytes@.subrange(at as int, from + 1));
        from += 1;
    }
    assert(copy@ =~= bytes@.skip(at as int));
    copy
}

/// The body of a message that has none: it must be empty.
pub fn parse_no_body(body: &[u8]) -> (parsed: Result<(), ParseError>)
    ensures
        parsed == if body@.len() != 0 {
            Err::<(), ParseError>(ParseError::NotExpected)
        } else {
            Ok::<(), ParseError>(())
        },
{
    if body.len() != 0 {
        Err(ParseError::NotExpected)
    } else {
        Ok(())
    }
}

/// The source addresses of a version 3 query: as many as its fixed part says,
/// from `at` on.
pub fn parse_query_sources(header: &MembershipQueryData, bytes: &[u8], at: usize) -> (parsed:
    Result<Vec<Ipv4Addr>, ParseError>)
    ensures
        match parsed {
            Ok(sources) => {
                &&& at + 4 * (header.number_of_sources[0] * 256 + header.number_of_sources[1])
                    <= bytes@.len()
                &&& sources@.len() == header.number_of_sources[0] * 256
                    + header.number_of_sources[1]
                &&& addresses_at(sources@, bytes@, at as int)
            },
            Err(error) => {
                &&& error == ParseError::Format
                &&& at + 4 * (header.number_of_sources[0] * 256 + header.number_of_sources[1])
                    > bytes@.len()
            },
        },
{
    let count: usize = header.number_of_sources() as usize;
    if at > bytes.len() || (bytes.len() - at) / 4 < count {
        return Err(ParseError::Format);
    }
    Ok(take_addresses(bytes, at, count))
}

/// The group record that `bytes` holds at `at`, and where it ends.
pub fn parse_group_record(bytes: &[u8], at: usize) -> (parsed: Result<
    (GroupRecord, usize),
    ParseError,
>)
    ensures
        match parsed {
            Ok((record, end)) => {
                &&& record_end(bytes@, at as int) == Some(end as int)
                &&& record_at(record, bytes@, at as int)
            },
            Err(error) => error == ParseError::Format && record_end(bytes@, at as int) is None,
        },
{
    let len: usize = bytes.len();
    if at > len || len - at < RECORD_HEADER_LEN {
        return Err(ParseError::Format);
    }
    let number_of_sources = pair_at(bytes, at + 2);
    let header = GroupRecordHeader {
        record_type: bytes[at],
        aux_data_len: bytes[at + 1],
        number_of_sources,
        multicast_address: take_address(bytes, at + 4),
    };
    let sources: usize = header.number_of_sources() as usize;
    let auxiliary: usize = header.aux_data_len as usize;
    let rest: usize = len - at - RECORD_HEADER_LEN;
    if rest / 4 < sources + auxiliary {
        return Err(ParseError::Format);
    }
    let addresses = take_addresses(bytes, at + RECORD_HEADER_LEN, sources);
    let end: usize = at + RECORD_HEADER_LEN + 4 * sources + 4 * auxiliary;
    Ok((GroupRecord { header, sources: addresses }, end))
}

/// The group records of a version 3 report: as many as its fixed part says,
/// from `base` on, which must fill `bytes` to its end.
pub fn parse_group_records(header: &MembershipReportV3Data, bytes: &[u8], base: usize) -> (parsed:
    Result<Vec<GroupRecord>, ParseError>)
    ensures
        match parsed {
            Ok(records) => {
                &&& record_start(
                    bytes@,
                    base as int,
                    (header.number_of_group_records[0] * 256
                        + header.number_of_group_records[1]) as nat,
                ) == Some(bytes@.len() as int)
                &&& records@.len() == header.number_of_group_records[0] * 256
                    + header.number_of_group_records[1]
                &&& forall|i: int|
                    0 <= i < records@.len() ==> record_at(
                        #[trigger] records@[i],
                        bytes@,
                        record_start(bytes@, base as int, i as nat).unwrap(),
                    )
            },
            Err(error) => {
                &&& error == ParseError::Format
                &&& record_start(
                    bytes@,
                    base as int,
                    (header.number_of_group_records[0] * 256
                        + header.number_of_group_records[1]) as nat,
                ) != Some(bytes@.len() as int)
            },
        },
{
    let count: usize = header.number_of_group_records() as usize;
    if base > bytes.len() {
        proof {
            lemma_records_start_at_or_after(bytes@, base as int, count as nat);
        }
        return Err(ParseError::Format);
    }
    let mut records: Vec<GroupRecord> = Vec::new();
    let mut at: usize = base;
    let mut done: usize = 0;
    while done < count
        invariant
            done <= count,
            count == header.number_of_group_records[0] * 256 + header.number_of_group_records[1],
            base <= at <= bytes@.len(),
            record_start(bytes@, base as int, done as nat) == Some(at as int),
            records@.len() == done,
            forall|i: int|
                0 <= i < records@.len() ==> record_at(
                    #[trigger] records@[i],
                    bytes@,
                    record_start(bytes@, base as int, i as nat).unwrap(),
                ),
        decreases count - done,
    {
        match parse_group_record(bytes, at) {
            Ok((record, end)) => {
                records.push(record);
                at = end;
            },
            Err(error) => {
                proof {
                    assert(record_start(bytes@, base as int, (done + 1) as nat) is None);
                    lemma_record_start_stays_none(
                        bytes@,
                        base as int,
                        (done + 1) as nat,
                        count as nat,
                    );
                }
                return Err(error);
            },
        }
        done += 1;
    }
    if at != bytes.len() {
        return Err(ParseError::Format);
    }
    Ok(records)
}

/// Tells the type of the message in `bytes`, and whether the message is
/// longer than a prefix and a group address.
pub fn peek_message_type(bytes: &[u8]) -> (peeked: Result<(IgmpMessageType, bool), ParseError>)
    ensures
        peeked == message_kind(bytes@),
{
    if bytes.len() < PREFIX_LEN {
        return Err(ParseError::Format);
    }
    match IgmpMessageType::from_u8(bytes[0]) {
        Some(kind) => Ok((kind, bytes.len() > PREFIX_LEN + ADDRESS_LEN)),
        None => Err(ParseError::NotSupported),
    }
}

/// Whether the checksum that `bytes` holds fits them.
pub fn verify_checksum(bytes: &[u8]) -> (fits: bool)
    ensures
        fits == checksum_fits(bytes@),
{
    let len: usize = bytes.len();
    let mut sum: u32 = 0;
    let mut at: usize = 0;
    while at + 1 < len
        invariant
            at <= len == bytes@.len(),
            at % 2 == 0,
            0 <= sum <= 0xffff,
            sum == ones_sum(bytes@.take(at as int)),
        decreases len - at,
    {
        let word: u32 = (bytes[at] as u32) * 256 + (bytes[at + 1] as u32);
        proof {
            let taken = bytes@.take(at + 2);
            assert(taken.take(taken.len() - 2) =~= bytes@.take(at as int));
        }
        sum = sum + word;
        if sum > 0xffff {
            sum = sum - 0xffff;
        }
        at += 2;
    }
    if at < len {
        let word: u32 = (bytes[at] as u32) * 256;
        proof {
            let taken = bytes@.take(at + 1);
            assert(taken.drop_last() =~= bytes@.take(at as int));
        }
        sum = sum + word;
        if sum > 0xffff {
            sum = sum - 0xffff;
        }
    }
    assert(bytes@.take(len as int) =~= bytes@);
    sum == 0xffff
}

impl IgmpPacket {
    /// Parses the message that `bytes` holds.
    pub fn parse(bytes: &[u8]) -> (parsed: Result<IgmpPacket, ParseError>)
        ensures
            match parsed {
                Ok(packet) => parse_error(bytes@) is None && packet.parsed_from(bytes@),
                Err(error) => parse_error(bytes@) == Some(error),
            },
    {
        let (kind, long) = match peek_message_type(bytes) {
            Ok(peeked) => peeked,
            Err(error) => {
                return Err(error);
            },
        };
        let version_3_query: bool = long && match kind {
            IgmpMessageType::MembershipQuery => true,
            _ => false,
        };
        let fixed: usize = if version_3_query {
            QUERY_DATA_LEN
        } else {
            ADDRESS_LEN
        };
        if bytes.len() < PREFIX_LEN + fixed {
            return Err(ParseError::Format);
        }
        if !verify_checksum(bytes) {
            return Err(ParseError::Checksum);
        }
        let prefix = HeaderPrefix {
            msg_type: bytes[0],
            max_resp_code: bytes[1],
            checksum: pair_at(bytes, 2),
        };
        match kind {
            IgmpMessageType::MembershipQuery => {
                if long {
                    let header = MembershipQueryData {
                        group_address: take_address(bytes, 4),
                        sqrv: bytes[8],
                        qqic: bytes[9],
                        number_of_sources: pair_at(bytes, 10),
                    };
                    match parse_query_sources(&header, bytes, PREFIX_LEN + QUERY_DATA_LEN) {
                        Ok(sources) => Ok(
                            IgmpPacket::MembershipQueryV3 { prefix, header, sources },
                        ),
                        Err(error) => Err(error),
                    }
                } else {
                    Ok(
                        IgmpPacket::MembershipQueryV2 {
                            prefix,
                            group_address: take_address(bytes, 4),
                        },
                    )
                }
            },
            IgmpMessageType::MembershipReportV3 => {
                let header = MembershipReportV3Data {
                    reserved: pair_at(bytes, 4),
                    number_of_group_records: pair_at(bytes, 6),
                };
                match parse_group_records(&header, bytes, PREFIX_LEN + REPORT_DATA_LEN) {
                    Ok(records) => {
                        let body = copy_of(bytes, PREFIX_LEN + REPORT_DATA_LEN);
                        Ok(IgmpPacket::MembershipReportV3 { prefix, header, records, body })
                    },
                    Err(error) => Err(error),
                }
            },
            IgmpMessageType::MembershipReportV1 => {
                match parse_no_body(slice_from(bytes, PREFIX_LEN + ADDRESS_LEN)) {
                    Ok(_) => Ok(
                        IgmpPacket::MembershipReportV1 {
                            prefix,
                            group_address: take_address(bytes, 4),
                        },
                    ),
                    Err(error) => Err(error),
                }
            },
            IgmpMessageType::MembershipReportV2 => {
                match parse_no_body(slice_from(bytes, PREFIX_LEN + ADDRESS_LEN)) {
                    Ok(_) => Ok(
                        IgmpPacket::MembershipReportV2 {
                            prefix,
                            group_address: take_address(bytes, 4),
                        },
                    ),
                    Err(error) => Err(error),
                }
            },
            IgmpMessageType::LeaveGroup => {
                match parse_no_body(slice_from(bytes, PREFIX_LEN + ADDRESS_LEN)) {
                    Ok(_) => Ok(
                        IgmpPacket::LeaveGroup { prefix, group_address: take_address(bytes, 4) },
                    ),
                    Err(error) => Err(error),
                }
            },
        }
    }
}

/// The part of `bytes` from `at` on.
fn slice_from(bytes: &[u8], at: usize) -> (rest: &[u8])
    requires
        at <= bytes@.len(),
    ensures
        rest@ == bytes@.skip(at as int),
{
    let rest = vstd::slice::slice_subrange(bytes, at, bytes.len());
    assert(rest@ =~= bytes@.skip(at as int));
    rest
}

/// The bytes of some addresses, one address after the other.
pub open spec fn addresses_bytes(addresses: Seq<Ipv4Addr>) -> Seq<u8>
    decreases addresses.len(),
{
    if addresses.len() == 0 {
        Seq::empty()
    } else {
        addresses_bytes(addresses.drop_last()) + addresses.last().bytes@
    }
}

/// The bytes of a prefix.
pub open spec fn prefix_bytes(prefix: HeaderPrefix) -> Seq<u8> {
    seq![prefix.msg_type, prefix.max_resp_code] + prefix.checksum@
}

impl IgmpPacket {
    /// The bytes after the message's fixed part: nothing, the sources of a
    /// version 3 query, or the group records of a version 3 report.
    pub open spec fn body_wire(&self) -> Seq<u8> {
        match self {
            IgmpPacket::MembershipQueryV3 { sources, .. } => addresses_bytes(sources@),
            IgmpPacket::MembershipReportV3 { body, .. } => body@,
            _ => Seq::empty(),
        }
    }

    /// The bytes of the message's fixed part, after the prefix.
    pub open spec fn header_wire(&self) -> Seq<u8> {
        match self {
            IgmpPacket::MembershipQueryV2 { group_address, .. } => group_address.bytes@,
            IgmpPacket::MembershipQueryV3 { header, .. } => header.group_address.bytes@ + seq![
                header.sqrv,
                header.qqic,
            ] + header.number_of_sources@,
            IgmpPacket::MembershipReportV1 { group_address, .. } => group_address.bytes@,
            IgmpPacket::MembershipReportV2 { group_address, .. } => group_address.bytes@,
            IgmpPacket::MembershipReportV3 { header, .. } => header.reserved@
                + header.number_of_group_records@,
            IgmpPacket::LeaveGroup { group_address, .. } => group_address.bytes@,
        }
    }

    /// The message on the wire: its prefix, its fixed part and its body.
    pub open spec fn wire(&self) -> Seq<u8> {
        prefix_bytes(self.prefix()) + self.header_wire() + self.body_wire()
    }

    /// The bytes after the message's fixed part.
    pub fn body_bytes(&self) -> (bytes: Vec<u8>)
        ensures
            bytes@ == self.body_wire(),
    {
        let mut bytes: Vec<u8> = Vec::new();
        match self {
            IgmpPacket::MembershipQueryV3 { sources, .. } => {
                let mut at: usize = 0;
                while at < sources.len()
                    invariant
                        at <= sources@.len(),
                        bytes@ == addresses_bytes(sources@.take(at as int)),
                    decreases sources@.len() - at,
                {
                    let ghost before = bytes@;
                    push_all(&mut bytes, &sources[at].bytes);
                    proof {
                        let taken = sources@.take(at + 1);
                        assert(taken.drop_last() =~= sources@.take(at as int));
                        assert(taken.last() == sources@[at as int]);
                    }
                    at += 1;
                }
                assert(sources@.take(sources@.len() as int) =~= sources@);
            },
            IgmpPacket::MembershipReportV3 { body, .. } => {
                push_all(&mut bytes, body.as_slice());
                assert(bytes@ =~= body@);
            },
            _ => {},
        }
        bytes
    }

    /// Writes the message as it stands on the wire.
    pub fn serialize(&self) -> (bytes: Vec<u8>)
        ensures
            bytes@ == self.wire(),
    {
        let mut bytes: Vec<u8> = Vec::new();
        let prefix = match self {
            IgmpPacket::MembershipQueryV2 { prefix, .. } => prefix,
            IgmpPacket::MembershipQueryV3 { prefix, .. } => prefix,
            IgmpPacket::MembershipReportV1 { prefix, .. } => prefix,
            IgmpPacket::MembershipReportV2 { prefix, .. } => prefix,
            IgmpPacket::MembershipReportV3 { prefix, .. } => prefix,
            IgmpPacket::LeaveGroup { prefix, .. } => prefix,
        };
        bytes.push(prefix.msg_type);
        bytes.push(prefix.max_resp_code);
        push_all(&mut bytes, &prefix.checksum);
        assert(bytes@ =~= prefix_bytes(self.prefix()));
        match self {
            IgmpPacket::MembershipQueryV2 { group_address, .. } => {
                push_all(&mut bytes, &group_address.bytes);
            },
            IgmpPacket::MembershipQueryV3 { header, .. } => {
                push_all(&mut bytes, &header.group_address.bytes);
                bytes.push(header.sqrv);
                bytes.push(header.qqic);
                push_all(&mut bytes, &header.number_of_sources);
            },
            IgmpPacket::MembershipReportV1 { group_address, .. } => {
                push_all(&mut bytes, &group_address.bytes);
            },
            IgmpPacket::MembershipReportV2 { group_address, .. } => {
                push_all(&mut bytes, &group_address.bytes);
            },
            IgmpPacket::MembershipReportV3 { header, .. } => {
                push_all(&mut bytes, &header.reserved);
                push_all(&mut bytes, &header.number_of_group_records);
            },
            IgmpPacket::LeaveGroup { group_address, .. } => {
                push_all(&mut bytes, &group_address.bytes);
            },
        }
        assert(bytes@ =~= prefix_bytes(self.prefix()) + self.header_wire());
        let body = self.body_bytes();
        push_all(&mut bytes, body.as_slice());
        bytes
    }
}

/// How a message is laid out: how many bytes its header takes, its body, and
/// what follows the body.
#[derive(Clone, Copy, Debug, PartialEq, Eq)]
pub struct ParseMetadata {
    pub header_len: usize,
    pub body_len: usize,
    pub footer_len: usize,
}

impl IgmpPacket {
    /// How the message is laid out: its header is the prefix and the fixed
    /// part of its type, its body is what follows, and it has no footer.
    pub fn parse_metadata(&self) -> (layout: ParseMetadata)
        ensures
            layout.header_len == prefix_bytes(self.prefix()).len() + self.header_wire().len(),
            layout.header_len == if self is MembershipQueryV3 {
                12int
            } else {
                8int
            },
            layout.body_len == self.body_wire().len(),
            layout.footer_len == 0,
    {
        let header_len: usize = match self {
            IgmpPacket::MembershipQueryV3 { .. } => PREFIX_LEN + QUERY_DATA_LEN,
            IgmpPacket::MembershipReportV3 { .. } => PREFIX_LEN + REPORT_DATA_LEN,
            _ => PREFIX_LEN + ADDRESS_LEN,
        };
        let body = self.body_bytes();
        ParseMetadata { header_len, body_len: body.len(), footer_len: 0 }
    }
}

/// Appends `more` to `bytes`.
fn push_all(bytes: &mut Vec<u8>, more: &[u8])
    ensures
        final(bytes)@ == old(bytes)@ + more@,
{
    let len: usize = more.len();
    let mut at: usize = 0;
    while at < len
        invariant
            at <= len == more@.len(),
            bytes@ == old(bytes)@ + more@.take(at as int),
        decreases len - at,
    {
        bytes.push(more[at]);
        assert(bytes@ =~= old(bytes)@ + more@.take(at + 1));
        at += 1;
    }
    assert(more@.take(len as int) =~= more@);
}

/// The addresses that `bytes` holds from `at` on have the bytes that stand
/// there.
pub proof fn lemma_addresses_bytes(addresses: Seq<Ipv4Addr>, bytes: Seq<u8>, at: int)
    requires
        0 <= at,
        at + 4 * addresses.len() <= bytes.len(),
        addresses_at(addresses, bytes, at),
    ensures
        addresses_bytes(addresses) == bytes.subrange(at, at + 4 * addresses.len()),
    decreases addresses.len(),
{
    if addresses.len() == 0 {
        assert(addresses_bytes(addresses) =~= bytes.subrange(at, at));
    } else {
        let rest = addresses.drop_last();
        assert forall|i: int| 0 <= i < rest.len() implies address_at(
            #[trigger] rest[i],
            bytes,
            at + 4 * i,
        ) by {
            assert(rest[i] == addresses[i]);
        }
        lemma_addresses_bytes(rest, bytes, at);
        let last = addresses.len() - 1;
        assert(address_at(addresses[last], bytes, at + 4 * last));
        assert(addresses_bytes(addresses) =~= bytes.subrange(at, at + 4 * addresses.len()));
    }
}

/// How long the message is that `bytes` holds, where it holds one: what may
/// follow the sources of a version 3 query is no part of the message.
pub open spec fn message_len(bytes: Seq<u8>) -> int {
    if message_kind(bytes) == Ok::<_, ParseError>((IgmpMessageType::MembershipQuery, true)) {
        12 + 4 * count_at(bytes, 10)
    } else {
        bytes.len() as int
    }
}

/// What was parsed is written back as it was read: a message that was parsed
/// from some bytes has those bytes on the wire.
pub proof fn law_parsed_message_keeps_its_bytes(packet: IgmpPacket, bytes: Seq<u8>)
    requires
        parse_error(bytes) is None,
        packet.parsed_from(bytes),
    ensures
        packet.wire() == bytes.take(message_len(bytes)),
{
    let prefix = packet.prefix();
    assert(prefix_bytes(prefix) =~= bytes.subrange(0, 4));
    match packet {
        IgmpPacket::MembershipQueryV3 { header, sources, .. } => {
            lemma_addresses_bytes(sources@, bytes, 12);
            assert(packet.header_wire() =~= bytes.subrange(4, 12));
            assert(packet.wire() =~= bytes.take(message_len(bytes)));
        },
        IgmpPacket::MembershipReportV3 { header, body, .. } => {
            assert(packet.header_wire() =~= bytes.subrange(4, 8));
            assert(packet.wire() =~= bytes.take(message_len(bytes)));
        },
        _ => {
            assert(packet.header_wire() =~= bytes.subrange(4, 8));
            assert(packet.wire() =~= bytes.take(message_len(bytes)));
        },
    }
}

} // verus!
