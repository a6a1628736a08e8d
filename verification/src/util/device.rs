use vstd::prelude::*;

use vstd::std_specs::convert::FromSpecImpl;
use vstd::string::StringSliceAdditionalSpecFns;

verus! {

/// Why a path could not be read as a write target.
#[derive(Debug)]
#[non_exhaustive]
pub enum DeviceParseError {
    NotFound,
    IO(std::io::Error),
}

/// Model name of a disk, when known.
#[derive(Debug, Clone, PartialEq, Eq)]
pub struct Model(pub Option<String>);

/// Size of a disk in bytes, when known.
#[derive(Debug, Clone, PartialEq, Eq)]
pub struct TargetSize(pub Option<u64>);

/// Physical block size of a disk in bytes, when known.
#[derive(Debug, Clone, PartialEq, Eq)]
pub struct BlockSize(pub Option<u64>);

/// Whether a disk can be detached from the machine.
#[derive(Debug, Clone, Copy, PartialEq, Eq, Structural)]
pub enum Removable {
    Yes,
    No,
    Unknown,
}

/// What a write target is.
#[derive(Debug, PartialEq, Eq, Structural, Clone, Copy)]
pub enum Type {
    File,
    Disk,
    Partition,
}

/// Something an image can be written to.
#[derive(Debug, PartialEq, Eq, Clone)]
pub struct WriteTarget {
    /// A user-friendly name for the disk (i.e. sda, nvme0n1, disk1s4)
    pub name: String,
    pub devnode: String,
    pub size: TargetSize,
    pub model: Model,
    pub removable: Removable,
    pub target_type: Type,
    pub block_size: BlockSize,
}

/// Text of a size as `bytesize::ByteSize` displays it.
pub uninterp spec fn byte_size_text(bytes: u64) -> Seq<char>;

/// A size in bytes as `bytesize::ByteSize` displays it.
#[verifier::external_body]
fn byte_size_string(bytes: u64) -> (s: String)
    ensures
        s@ == byte_size_text(bytes),
{
    bytesize::ByteSize::b(bytes).to_string()
}

impl From<Option<bool>> for Removable {
    fn from(value: Option<bool>) -> (r: Self) {
        match value {
            Some(true) => Removable::Yes,
            Some(false) => Removable::No,
            None => Removable::Unknown,
        }
    }
}

impl FromSpecImpl<Option<bool>> for Removable {
    open spec fn obeys_from_spec() -> bool {
        true
    }

    open spec fn from_spec(v: Option<bool>) -> Removable {
        match v {
            Some(true) => Removable::Yes,
            Some(false) => Removable::No,
            None => Removable::Unknown,
        }
    }
}

impl From<Option<String>> for Model {
    fn from(value: Option<String>) -> (r: Self) {
        Model(value)
    }
}

impl FromSpecImpl<Option<String>> for Model {
    open spec fn obeys_from_spec() -> bool {
        true
    }

    open spec fn from_spec(v: Option<String>) -> Model {
        Model(v)
    }
}

impl From<Option<u64>> for TargetSize {
    fn from(value: Option<u64>) -> (r: Self) {
        TargetSize(value)
    }
}

impl FromSpecImpl<Option<u64>> for TargetSize {
    open spec fn obeys_from_spec() -> bool {
        true
    }

    open spec fn from_spec(v: Option<u64>) -> TargetSize {
        TargetSize(v)
    }
}

impl From<Option<u64>> for BlockSize {
    fn from(value: Option<u64>) -> (r: Self) {
        BlockSize(value)
    }
}

impl FromSpecImpl<Option<u64>> for BlockSize {
    open spec fn obeys_from_spec() -> bool {
        true
    }

    open spec fn from_spec(v: Option<u64>) -> BlockSize {
        BlockSize(v)
    }
}

impl Model {
    /// The model name, or a placeholder when unknown.
    pub fn to_string(&self) -> (r: String)
        ensures
            self.0 matches Some(m) ==> r@ == m@,
            self.0 is None ==> r@ == "[unknown model]"@,
    {
        match &self.0 {
            Some(m) => m.clone(),
            None => String::from_str("[unknown model]"),
        }
    }
}

impl TargetSize {
    /// The size as text, or a placeholder when unknown.
    pub fn to_string(&self) -> (r: String)
        ensures
            self.0 matches Some(s) ==> r@ == byte_size_text(s),
            self.0 is None ==> r@ == "[unknown size]"@,
    {
        match self.0 {
            Some(s) => byte_size_string(s),
            None => String::from_str("[unknown size]"),
        }
    }
}

impl BlockSize {
    /// The block size as text, or a placeholder when unknown.
    pub fn to_string(&self) -> (r: String)
        ensures
            self.0 matches Some(s) ==> r@ == byte_size_text(s),
            self.0 is None ==> r@ == "[unknown block size]"@,
    {
        match self.0 {
            Some(bs) => byte_size_string(bs),
            None => String::from_str("[unknown block size]"),
        }
    }
}

impl Removable {
    /// `yes`, `no` or `unknown`.
    pub fn to_string(&self) -> (r: String)
        ensures
            *self == Removable::Yes ==> r@ == "yes"@,
            *self == Removable::No ==> r@ == "no"@,
            *self == Removable::Unknown ==> r@ == "unknown"@,
    {
        match self {
            Removable::Yes => String::from_str("yes"),
            Removable::No => String::from_str("no"),
            Removable::Unknown => String::from_str("unknown"),
        }
    }
}

impl Type {
    /// `file`, `disk` or `partition`.
    pub fn to_string(&self) -> (r: String)
        ensures
            *self == Type::File ==> r@ == "file"@,
            *self == Type::Disk ==> r@ == "disk"@,
            *self == Type::Partition ==> r@ == "partition"@,
    {
        match self {
            Type::File => String::from_str("file"),
            Type::Disk => String::from_str("disk"),
            Type::Partition => String::from_str("partition"),
        }
    }
}

/// The buses whose devices can be attached and detached while the machine
/// runs, by their subsystem names' bytes: usb, mmc, memstick, ieee1394 and
/// pcmcia.
pub open spec fn hotplug_subsystems() -> Seq<Seq<u8>> {
    seq![
        seq![117u8, 115, 98],
        seq![109u8, 109, 99],
        seq![109u8, 101, 109, 115, 116, 105, 99, 107],
        seq![105u8, 101, 101, 101, 49, 51, 57, 52],
        seq![112u8, 99, 109, 99, 105, 97],
    ]
}

/// Whether two byte strings are equal.
fn bytes_eq(a: &[u8], b: &[u8]) -> (r: bool)
    ensures
        r == (a@ == b@),
{
    if a.len() != b.len() {
        return false;
    }
    let mut i: usize = 0;
    while i < a.len()
        invariant
            i <= a@.len(),
            a@.len() == b@.len(),
            forall|j: int| 0 <= j < i ==> a@[j] == b@[j],
        decreases a.len() - i,
    {
        if a[i] != b[i] {
            return false;
        }
        i = i + 1;
    }
    assert(a@ =~= b@);
    true
}

/// Whether the subsystem `name` is a bus whose devices can be unplugged.
pub fn is_hotplug_subsystem(name: &str) -> (r: bool)
    ensures
        r == hotplug_subsystems().contains(name.spec_bytes()),
{
    let bytes = name.as_bytes();
    let candidates: [&[u8]; 5] = [
        &[117u8, 115, 98],
        &[109u8, 109, 99],
        &[109u8, 101, 109, 115, 116, 105, 99, 107],
        &[105u8, 101, 101, 101, 49, 51, 57, 52],
        &[112u8, 99, 109, 99, 105, 97],
    ];
    assert(candidates@.map_values(|c: &[u8]| c@) =~= hotplug_subsystems());
    let mut i: usize = 0;
    while i < 5
        invariant
            i <= 5,
            bytes@ == name.spec_bytes(),
            candidates@.map_values(|c: &[u8]| c@) == hotplug_subsystems(),
            forall|j: int| 0 <= j < i ==> hotplug_subsystems()[j] != bytes@,
        decreases 5 - i,
    {
        if bytes_eq(bytes, candidates[i]) {
            assert(hotplug_subsystems()[i as int] == bytes@);
            return true;
        }
        i = i + 1;
    }
    assert(!hotplug_subsystems().contains(bytes@)) by {
        if hotplug_subsystems().contains(bytes@) {
            let j = choose|j: int| 0 <= j < 5 && hotplug_subsystems()[j] == bytes@;
        }
    }
    false
}

/// Whether an ancestor's subsystem, as read, is a hot-pluggable bus.
pub open spec fn hotplug_entry(subsystem: Option<String>) -> bool {
    match subsystem {
        Some(name) => hotplug_subsystems().contains(vstd::utf8::encode_utf8(name@)),
        None => false,
    }
}

/// Whether a device hangs off a hot-pluggable bus, given the subsystem names
/// that its device-tree ancestors link to, from the device up to the root
/// (`None` where an ancestor links to no readable subsystem).
pub fn on_hotplug_bus(ancestry: &Vec<Option<String>>) -> (r: bool)
    ensures
        r == exists|i: int| 0 <= i < ancestry@.len() && hotplug_entry(#[trigger] ancestry@[i]),
{
    let mut i: usize = 0;
    while i < ancestry.len()
        invariant
            i <= ancestry@.len(),
            forall|j: int| 0 <= j < i ==> !hotplug_entry(#[trigger] ancestry@[j]),
        decreases ancestry.len() - i,
    {
        match &ancestry[i] {
            Some(name) => {
                if is_hotplug_subsystem(name.as_str()) {
                    return true;
                }
            },
            None => {},
        }
        i = i + 1;
    }
    false
}

/// What the `removable` attribute and the bus tell of detachability: either
/// one saying yes is enough; an unreadable attribute is unknown only when
/// the bus does not settle it.
pub open spec fn resolve_removable_spec(removable_attr: Option<Seq<u8>>, hotplug_bus: bool) -> Removable {
    match removable_attr {
        Some(a) if a == seq![49u8] => Removable::Yes,
        _ => if hotplug_bus {
            Removable::Yes
        } else {
            match removable_attr {
                Some(a) if a == seq![48u8] => Removable::No,
                _ => Removable::Unknown,
            }
        },
    }
}

pub open spec fn str_option_bytes(s: Option<&str>) -> Option<Seq<u8>> {
    match s {
        Some(s) => Some(s.spec_bytes()),
        None => None,
    }
}

/// Combines the `removable` attribute of a block device and whether it hangs
/// off a hot-pluggable bus into one answer.
pub fn resolve_removable(removable_attr: Option<&str>, hotplug_bus: bool) -> (r: Removable)
    ensures
        r == resolve_removable_spec(str_option_bytes(removable_attr), hotplug_bus),
{
    let one: [u8; 1] = [49u8];
    let zero: [u8; 1] = [48u8];
    assert(one@ =~= seq![49u8]);
    assert(zero@ =~= seq![48u8]);
    match removable_attr {
        Some(a) if bytes_eq(a.as_bytes(), &one) => Removable::Yes,
        _ => {
            if hotplug_bus {
                Removable::Yes
            } else {
                match removable_attr {
                    Some(a) if bytes_eq(a.as_bytes(), &zero) => Removable::No,
                    _ => Removable::Unknown,
                }
            }
        },
    }
}

/// Either source saying a disk is removable is enough: a `removable`
/// attribute of `1` or a hot-pluggable bus gives yes, whatever the other
/// says. Only a `0` on a fixed bus gives no, and the answer is unknown only
/// when neither the attribute nor the bus settles it.
pub proof fn lemma_removable_either_is_enough(removable_attr: Option<Seq<u8>>, hotplug_bus: bool)
    ensures
        (removable_attr == Some(seq![49u8]) || hotplug_bus) ==> resolve_removable_spec(
            removable_attr,
            hotplug_bus,
        ) == Removable::Yes,
        resolve_removable_spec(removable_attr, hotplug_bus) == Removable::No <==> (
        removable_attr == Some(seq![48u8]) && !hotplug_bus),
        resolve_removable_spec(removable_attr, hotplug_bus) == Removable::Unknown <==> (
        !hotplug_bus && removable_attr != Some(seq![49u8]) && removable_attr != Some(
            seq![48u8],
        )),
{
    assert(seq![49u8] != seq![48u8]) by {
        assert(seq![49u8][0] != seq![48u8][0]);
    }
}

/// The value of a string of decimal digits.
pub open spec fn decimal_value(d: Seq<u8>) -> int
    decreases d.len(),
{
    if d.len() == 0 {
        0
    } else {
        decimal_value(d.drop_last()) * 10 + (d.last() - 48)
    }
}

pub open spec fn all_digits(d: Seq<u8>) -> bool {
    forall|i: int| 0 <= i < d.len() ==> 48 <= #[trigger] d[i] <= 57
}

/// The digits of a number's text: the text without a leading `+`.
pub open spec fn unsigned_digits(s: Seq<u8>) -> Seq<u8> {
    if s.len() > 0 && s[0] == 43 {
        s.drop_first()
    } else {
        s
    }
}

/// The number a text spells as `str::parse::<u64>` reads it: an optional
/// `+`, then one or more decimal digits, of a value that fits in 64 bits.
pub open spec fn parse_u64_spec(s: Seq<u8>) -> Option<u64> {
    let d = unsigned_digits(s);
    if d.len() > 0 && all_digits(d) && decimal_value(d) <= u64::MAX {
        Some(decimal_value(d) as u64)
    } else {
        None
    }
}

proof fn lemma_decimal_monotone(d: Seq<u8>, k: int)
    requires
        all_digits(d),
        0 <= k <= d.len(),
    ensures
        0 <= decimal_value(d.take(k)) <= decimal_value(d),
    decreases d.len(),
{
    if d.len() > 0 {
        if k == d.len() {
            assert(d.take(k) =~= d);
            lemma_decimal_monotone(d.drop_last(), k - 1);
            assert(d.drop_last().take(k - 1) =~= d.drop_last());
        } else {
            lemma_decimal_monotone(d.drop_last(), k);
            assert(d.drop_last().take(k) =~= d.take(k));
        }
    }
}

/// Reads a decimal number as `str::parse::<u64>` does.
pub fn parse_u64(s: &str) -> (r: Option<u64>)
    ensures
        r == parse_u64_spec(s.spec_bytes()),
{
    let b = s.as_bytes();
    let ghost d = unsigned_digits(b@);
    assert(b@ == s.spec_bytes());
    let start: usize = if b.len() > 0 && b[0] == 43 {
        1
    } else {
        0
    };
    assert(d =~= b@.skip(start as int));
    if b.len() == start {
        return None;
    }
    let mut value: u64 = 0;
    let mut i: usize = start;
    while i < b.len()
        invariant
            start <= i <= b@.len(),
            d == b@.skip(start as int),
            d == unsigned_digits(b@),
            b@ == s.spec_bytes(),
            forall|j: int| start <= j < i ==> 48 <= #[trigger] b@[j] <= 57,
            value == decimal_value(d.take(i - start)),
        decreases b.len() - i,
    {
        let c = b[i];
        if c < 48 || c > 57 {
            proof {
                assert(d[i - start] == b@[i as int]);
                assert(!(48 <= d[i - start] <= 57));
                assert(!all_digits(d));
                assert(unsigned_digits(b@) == d);
                assert(parse_u64_spec(b@) is None);
            }
            return None;
        }
        assert(d.take(i - start + 1).drop_last() =~= d.take(i - start));
        assert(d.take(i - start + 1).last() == c);
        let digit = (c - 48) as u64;
        if value > (u64::MAX - digit) / 10 {
            assert(decimal_value(d.take(i - start + 1)) > u64::MAX) by (nonlinear_arith)
                requires
                    decimal_value(d.take(i - start + 1)) == value * 10 + digit,
                    value > (u64::MAX - digit) / 10,
                    digit <= 9,
            ;
            proof {
                if all_digits(d) {
                    lemma_decimal_monotone(d, i - start + 1);
                    assert(decimal_value(d) > u64::MAX);
                }
                assert(parse_u64_spec(b@) is None);
            }
            return None;
        }
        assert(value * 10 + digit <= u64::MAX) by (nonlinear_arith)
            requires
                value <= (u64::MAX - digit) / 10,
                digit <= 9,
        ;
        value = value * 10 + digit;
        i = i + 1;
    }
    assert(d.take(i - start) =~= d);
    assert(all_digits(d));
    Some(value)
}

/// Whether a `size` attribute, counted in 512-byte sectors, can be turned
/// into bytes without overflow: it does not parse, or its byte count fits.
pub open spec fn size_attr_fits(size_attr: Option<Seq<u8>>) -> bool {
    match size_attr {
        Some(s) => match parse_u64_spec(s) {
            Some(n) => n * 512 <= u64::MAX,
            None => true,
        },
        None => true,
    }
}

pub open spec fn string_option_bytes(s: Option<String>) -> Option<Seq<u8>> {
    match s {
        Some(s) => Some(vstd::utf8::encode_utf8(s@)),
        None => None,
    }
}

/// The size in bytes that a `size` attribute gives, if it parses.
pub open spec fn size_from_attr(size_attr: Option<Seq<u8>>) -> Option<u64> {
    match size_attr {
        Some(s) => match parse_u64_spec(s) {
            Some(n) => Some((n * 512) as u64),
            None => None,
        },
        None => None,
    }
}

/// The block size that a `physical_block_size` attribute gives, if it parses.
pub open spec fn block_size_from_attr(attr: Option<Seq<u8>>) -> Option<u64> {
    match attr {
        Some(s) => parse_u64_spec(s),
        None => None,
    }
}

impl WriteTarget {
    /// A plain file as a write target: nothing is known of it.
    pub fn from_normal_file(path: String) -> (r: Self)
        ensures
            r.name == path,
            r.devnode == path,
            r.size == TargetSize(None),
            r.model == Model(None),
            r.removable == Removable::Unknown,
            r.target_type == Type::File,
            r.block_size == BlockSize(None),
    {
        WriteTarget {
            name: path.clone(),
            devnode: path,
            size: TargetSize(None),
            model: Model(None),
            removable: Removable::Unknown,
            target_type: Type::File,
            block_size: BlockSize(None),
        }
    }

    /// A block device as a write target, from what its sysfs node holds: the
    /// `removable`, `size` (in 512-byte sectors), `device/model` and
    /// `queue/physical_block_size` attributes (already trimmed, `None` when
    /// absent), whether it hangs off a hot-pluggable bus and whether it has a
    /// `partition` attribute.
    pub fn from_sysfs_attributes(
        name: String,
        devnode: String,
        removable_attr: Option<&str>,
        hotplug_bus: bool,
        size_attr: Option<String>,
        model_attr: Option<String>,
        is_partition: bool,
        block_size_attr: Option<String>,
    ) -> (r: Self)
        requires
            size_attr_fits(string_option_bytes(size_attr)),
        ensures
            r.name == name,
            r.devnode == devnode,
            r.removable == resolve_removable_spec(str_option_bytes(removable_attr), hotplug_bus),
            r.size == TargetSize(size_from_attr(string_option_bytes(size_attr))),
            r.model == Model(model_attr),
            r.target_type == if is_partition {
                Type::Partition
            } else {
                Type::Disk
            },
            r.block_size == BlockSize(block_size_from_attr(string_option_bytes(block_size_attr))),
    {
        let removable = resolve_removable(removable_attr, hotplug_bus);
        let size = match &size_attr {
            Some(s) => match parse_u64(s.as_str()) {
                Some(n) => Some(n * 512),
                None => None,
            },
            None => None,
        };
        let block_size = match &block_size_attr {
            Some(s) => parse_u64(s.as_str()),
            None => None,
        };
        let target_type = if is_partition {
            Type::Partition
        } else {
            Type::Disk
        };
        WriteTarget {
            name,
            devnode,
            size: TargetSize(size),
            removable,
            model: Model(model_attr),
            target_type,
            block_size: BlockSize(block_size),
        }
    }
}

/// The bytes of an ASCII literal are its characters as bytes.
proof fn lemma_literal_bytes(lit: &str, bytes: Seq<u8>)
    requires
        lit@.len() == bytes.len(),
        forall|i: int| 0 <= i < bytes.len() ==> (#[trigger] lit@[i] as int) == bytes[i] && bytes[i]
            < 128,
    ensures
        lit.spec_bytes() == bytes,
{
    let c = lit@;
    assert forall|i: int| 0 <= i < c.len() implies '\0' <= #[trigger] c[i] <= '\u{7f}' by {
        assert((c[i] as int) < 128);
    }
    assert(vstd::utf8::is_ascii_chars(c));
    vstd::utf8::is_ascii_chars_encode_utf8(c);
    assert forall|i: int| 0 <= i < bytes.len() implies vstd::utf8::encode_utf8(c)[i] == bytes[i] by {
        assert(c[i] as u8 == vstd::utf8::encode_utf8(c)[i]);
        assert((c[i] as int) == bytes[i]);
    }
    assert(lit.spec_bytes() =~= bytes);
}

/// A subsystem is a hot-pluggable bus exactly when its name is one of
/// `usb`, `mmc`, `memstick`, `ieee1394` and `pcmcia`: those five, and no
/// other name (a virtual machine's `virtio` disk, say, is fixed).
pub proof fn lemma_hotplug_subsystems_are_the_five_buses(name: &str)
    ensures
        hotplug_subsystems().contains(name.spec_bytes()) <==> (name@ == "usb"@ || name@ == "mmc"@
            || name@ == "memstick"@ || name@ == "ieee1394"@ || name@ == "pcmcia"@),
{
    reveal_strlit("usb");
    reveal_strlit("mmc");
    reveal_strlit("memstick");
    reveal_strlit("ieee1394");
    reveal_strlit("pcmcia");
    let h = hotplug_subsystems();
    lemma_literal_bytes("usb", h[0]);
    lemma_literal_bytes("mmc", h[1]);
    lemma_literal_bytes("memstick", h[2]);
    lemma_literal_bytes("ieee1394", h[3]);
    lemma_literal_bytes("pcmcia", h[4]);
    vstd::utf8::encode_utf8_decode_utf8(name@);
    vstd::utf8::encode_utf8_decode_utf8("usb"@);
    vstd::utf8::encode_utf8_decode_utf8("mmc"@);
    vstd::utf8::encode_utf8_decode_utf8("memstick"@);
    vstd::utf8::encode_utf8_decode_utf8("ieee1394"@);
    vstd::utf8::encode_utf8_decode_utf8("pcmcia"@);
    if h.contains(name.spec_bytes()) {
        let j = choose|j: int| 0 <= j < h.len() && h[j] == name.spec_bytes();
        assert(j == 0 || j == 1 || j == 2 || j == 3 || j == 4);
    }
    if name@ == "usb"@ {
        assert(h[0] == name.spec_bytes());
    }
    if name@ == "mmc"@ {
        assert(h[1] == name.spec_bytes());
    }
    if name@ == "memstick"@ {
        assert(h[2] == name.spec_bytes());
    }
    if name@ == "ieee1394"@ {
        assert(h[3] == name.spec_bytes());
    }
    if name@ == "pcmcia"@ {
        assert(h[4] == name.spec_bytes());
    }
}

/// The digits of a decimal text are digit bytes, and they spell its value.
proof fn lemma_decimal_text_digits(n: nat)
    ensures
        ({
            let t = crate::stdiomux::frame::decimal_text(n);
            let b = t.map_values(|c: char| c as u8);
            &&& b.len() == t.len() > 0
            &&& all_digits(b)
            &&& decimal_value(b) == n
            &&& forall|i: int| 0 <= i < t.len() ==> (#[trigger] t[i] as int) == b[i]
        }),
    decreases n,
{
    let t = crate::stdiomux::frame::decimal_text(n);
    let b = t.map_values(|c: char| c as u8);
    let d = n % 10;
    assert(((48 + d) as char) as u8 == 48 + d && (((48 + d) as char) as int) == 48 + d);
    if n < 10 {
        assert(t == seq![crate::stdiomux::frame::digit_char(n as int)]);
        assert(t.len() == 1 && b.len() == 1);
        assert(b[0] == 48 + d);
        assert(b.drop_last() =~= Seq::<u8>::empty());
        assert(decimal_value(b) == decimal_value(b.drop_last()) * 10 + (b.last() - 48));
        assert(all_digits(b));
    } else {
        lemma_decimal_text_digits(n / 10);
        let t0 = crate::stdiomux::frame::decimal_text(n / 10);
        let b0 = t0.map_values(|c: char| c as u8);
        assert(b.drop_last() =~= b0);
        assert(b.last() == 48 + d);
        assert forall|i: int| 0 <= i < b.len() implies 48 <= #[trigger] b[i] <= 57 by {
            if i < b0.len() {
                assert(b[i] == b0[i]);
            }
        }
        assert forall|i: int| 0 <= i < t.len() implies (#[trigger] t[i] as int) == b[i] by {
            if i < t0.len() {
                assert(t[i] == t0[i]);
                assert(b[i] == b0[i]);
            }
        }
        assert((n / 10) * 10 + d == n);
        assert(decimal_value(b) == decimal_value(b.drop_last()) * 10 + (b.last() - 48));
        assert(all_digits(b));
    }
}

/// The decimal text of a number, as a frame's debug text writes it, reads
/// back as that number; as a size attribute it counts that many 512-byte
/// sectors.
pub proof fn lemma_decimal_text_reads_back(s: &str, n: u64)
    requires
        s@ == crate::stdiomux::frame::decimal_text(n as nat),
    ensures
        parse_u64_spec(s.spec_bytes()) == Some(n),
        n * 512 <= u64::MAX ==> size_from_attr(Some(s.spec_bytes())) == Some((n * 512) as u64),
{
    lemma_decimal_text_digits(n as nat);
    let b = s@.map_values(|c: char| c as u8);
    lemma_literal_bytes(s, b);
    assert(unsigned_digits(b) == b);
}

} // verus!
