//! Fans and thermal sensors discovered under `/sys/class/hwmon`.

use crate::text::{
    begins_with, chars_of, contains_chars, has_infix, has_prefix, has_suffix, parse_unsigned,
    parse_trimmed, push_char, push_chars, string_from, trim, trim_chars,
};
use vstd::prelude::*;

verus! {

/// Reads the machine's fans and thermal zones.
#[derive(Clone, Copy, Debug)]
pub struct ThermalCollector;

impl ThermalCollector {
    /// A collector.
    pub fn new() -> (c: Self) {
        ThermalCollector
    }
}

/// A fan and its speed.
#[derive(Clone, Debug)]
pub struct FanSensor {
    pub name: String,
    pub rpm: u32,
}

/// A file of a hwmon device: its name and, when it could be read, its text.
#[derive(Clone, Debug)]
pub struct HwmonFile {
    pub file_name: String,
    pub content: Option<String>,
}

/// A hwmon device: the text of its `name` file, when it could be read, and
/// its files.
#[derive(Clone, Debug)]
pub struct HwmonDevice {
    pub name_file: Option<String>,
    pub files: Vec<HwmonFile>,
}

/// The label of a hwmon device: its trimmed `name` file, or `hwmon`.
pub open spec fn hwmon_label(name_file: Option<String>) -> Seq<char> {
    trim(
        match name_file {
            Some(s) => s@,
            None => "hwmon"@,
        },
    )
}

/// Whether a hwmon file reports a fan speed: `fan…_input`.
pub open spec fn is_fan_input_name(f: Seq<char>) -> bool {
    "fan"@.is_prefix_of(f) && "_input"@.is_suffix_of(f)
}

/// `s` with every occurrence of `p` removed, scanning from the left, as
/// `str::replace(p, "")` does.
pub open spec fn remove_all(s: Seq<char>, p: Seq<char>) -> Seq<char>
    decreases s.len(),
{
    if p.len() > 0 && p.is_prefix_of(s) {
        remove_all(s.subrange(p.len() as int, s.len() as int), p)
    } else if s.len() == 0 {
        seq![]
    } else {
        seq![s[0]] + remove_all(s.drop_first(), p)
    }
}

/// The speed a fan file reports: its trimmed text as a `u32`.
pub open spec fn rpm_of(content: Option<String>) -> Option<nat> {
    match content {
        Some(c) => parse_unsigned(trim(c@), u32::MAX as nat),
        None => None,
    }
}

/// The name of a fan: the device label, `_`, and the file name without
/// `_input`.
pub open spec fn fan_name(label: Seq<char>, file_name: Seq<char>) -> Seq<char> {
    label + seq!['_'] + remove_all(file_name, "_input"@)
}

/// The fans among the files of a device labelled `label`, in order.
pub open spec fn file_fans(label: Seq<char>, files: Seq<HwmonFile>) -> Seq<(Seq<char>, u32)>
    decreases files.len(),
{
    if files.len() == 0 {
        seq![]
    } else {
        let prev = file_fans(label, files.drop_last());
        let f = files.last();
        if is_fan_input_name(f.file_name@) && rpm_of(f.content) is Some {
            prev.push((fan_name(label, f.file_name@), rpm_of(f.content).unwrap() as u32))
        } else {
            prev
        }
    }
}

/// The fans of all devices, device by device.
pub open spec fn device_fans(d: Seq<HwmonDevice>) -> Seq<(Seq<char>, u32)>
    decreases d.len(),
{
    if d.len() == 0 {
        seq![]
    } else {
        device_fans(d.drop_last()) + file_fans(hwmon_label(d.last().name_file), d.last().files@)
    }
}

/// The speed of the first fan that spins, or 0.
pub open spec fn first_spinning(f: Seq<(Seq<char>, u32)>) -> u32
    decreases f.len(),
{
    if f.len() == 0 {
        0
    } else if f[0].1 > 0 {
        f[0].1
    } else {
        first_spinning(f.drop_first())
    }
}

/// Fans as plain pairs of name and speed.
pub open spec fn fans_view(v: Seq<FanSensor>) -> Seq<(Seq<char>, u32)> {
    v.map_values(|f: FanSensor| (f.name@, f.rpm))
}

proof fn lemma_first_spinning_push(s: Seq<(Seq<char>, u32)>, x: (Seq<char>, u32))
    ensures
        first_spinning(s.push(x)) == if first_spinning(s) > 0 {
            first_spinning(s)
        } else {
            x.1
        },
    decreases s.len(),
{
    if s.len() > 0 {
        assert(s.push(x)[0] == s[0]);
        assert(s.push(x).drop_first() =~= s.drop_first().push(x));
        lemma_first_spinning_push(s.drop_first(), x);
    } else {
        assert(s.push(x)[0] == x);
        assert(s.push(x).drop_first() =~= seq![]);
        assert(first_spinning(Seq::<(Seq<char>, u32)>::empty()) == 0);
    }
}

/// `s` with `p` removed wherever it occurs.
fn remove_all_chars(s: &[char], p: &[char]) -> (r: Vec<char>)
    requires
        p@.len() > 0,
    ensures
        r@ == remove_all(s@, p@),
{
    let n = s.len();
    let mut r: Vec<char> = Vec::new();
    let mut i: usize = 0;
    assert(s@.subrange(0, n as int) =~= s@);
    assert(r@ + s@ =~= s@);
    while i < n
        invariant
            i <= n,
            n == s@.len(),
            p@.len() > 0,
            remove_all(s@, p@) == r@ + remove_all(s@.subrange(i as int, n as int), p@),
        decreases n - i,
    {
        let rest = s.split_at(i).1;
        assert(rest@ == s@.subrange(i as int, n as int));
        if has_prefix(rest, p) {
            proof {
                assert(rest@.subrange(p@.len() as int, rest@.len() as int) =~= s@.subrange(
                    i + p@.len(),
                    n as int,
                ));
            }
            i = i + p.len();
        } else {
            proof {
                assert(rest@.drop_first() =~= s@.subrange(i + 1, n as int));
                assert(r@.push(s@[i as int]) =~= r@ + seq![rest@[0]]);
            }
            r.push(s[i]);
            i = i + 1;
        }
    }
    proof {
        assert(s@.subrange(n as int, n as int) =~= seq![]);
        assert(remove_all(seq![], p@) == Seq::<char>::empty());
        assert(r@ + Seq::<char>::empty() =~= r@);
    }
    r
}

/// The label of a hwmon device.
fn label_of(name_file: &Option<String>) -> (l: Vec<char>)
    ensures
        l@ == hwmon_label(*name_file),
{
    let raw = match name_file {
        Some(s) => chars_of(s.as_str()),
        None => chars_of("hwmon"),
    };
    trim_chars(raw.as_slice())
}

/// Whether a hwmon file name reports a fan speed.
pub fn is_fan_input(file_name: &str) -> (b: bool)
    ensures
        b == is_fan_input_name(file_name@),
{
    let f = chars_of(file_name);
    let fan = chars_of("fan");
    let input = chars_of("_input");
    has_prefix(f.as_slice(), fan.as_slice()) && has_suffix(f.as_slice(), input.as_slice())
}

/// The fans of the hwmon devices, device by device and file by file in the
/// given order: every `fan…_input` file whose text is a speed, named after
/// its device and file; and the speed of the first fan that spins (0 when
/// none does).
pub fn fans_from_hwmon(devices: &Vec<HwmonDevice>) -> (r: (Vec<FanSensor>, u32))
    ensures
        fans_view(r.0@) == device_fans(devices@),
        r.1 == first_spinning(device_fans(devices@)),
{
    let mut fans: Vec<FanSensor> = Vec::new();
    let mut primary: u32 = 0;
    let input = chars_of("_input");
    proof {
        reveal_strlit("_input");
    }
    assert(input@ == "_input"@ && input@.len() == 6);
    for d in 0..devices.len()
        invariant
            input@ == "_input"@,
            input@.len() == 6,
            fans_view(fans@) == device_fans(devices@.take(d as int)),
            primary == first_spinning(fans_view(fans@)),
    {
        proof {
            assert(devices@.take(d + 1).drop_last() =~= devices@.take(d as int));
        }
        let dev = &devices[d];
        let label = label_of(&dev.name_file);
        let ghost base = fans_view(fans@);
        for k in 0..dev.files.len()
            invariant
                input@ == "_input"@,
                input@.len() == 6,
                label@ == hwmon_label(dev.name_file),
                fans_view(fans@) == base + file_fans(label@, dev.files@.take(k as int)),
                primary == first_spinning(fans_view(fans@)),
        {
            proof {
                assert(dev.files@.take(k + 1).drop_last() =~= dev.files@.take(k as int));
            }
            let f = &dev.files[k];
            if is_fan_input(f.file_name.as_str()) {
                match &f.content {
                    Some(c) => {
                        match parse_trimmed(c.as_str(), 4294967295) {
                            Some(v) => {
                                let rpm = v as u32;
                                let mut name = String::new();
                                push_chars(&mut name, label.as_slice());
                                push_char(&mut name, '_');
                                let fc = chars_of(f.file_name.as_str());
                                let stem = remove_all_chars(fc.as_slice(), input.as_slice());
                                push_chars(&mut name, stem.as_slice());
                                let ghost before = fans_view(fans@);
                                proof {
                                    lemma_first_spinning_push(before, (name@, rpm));
                                }
                                if rpm > 0 && primary == 0 {
                                    primary = rpm;
                                }
                                fans.push(FanSensor { name, rpm });
                                proof {
                                    assert(fans_view(fans@) =~= before.push((name@, rpm)));
                                    assert(name@ =~= fan_name(label@, f.file_name@));
                                }
                            },
                            None => {},
                        }
                    },
                    None => {},
                }
            }
        }
        proof {
            assert(dev.files@.take(dev.files@.len() as int) =~= dev.files@);
            assert(devices@.take(d + 1).last() == *dev);
        }
    }
    proof {
        assert(devices@.take(devices@.len() as int) =~= devices@);
    }
    (fans, primary)
}

/// The speeds among the Asus WMI fan readings, in order.
pub open spec fn asus_rpms(contents: Seq<Option<String>>) -> Seq<u32>
    decreases contents.len(),
{
    if contents.len() == 0 {
        seq![]
    } else {
        let prev = asus_rpms(contents.drop_last());
        match rpm_of(contents.last()) {
            Some(v) => prev.push(v as u32),
            None => prev,
        }
    }
}

/// The directory of the Asus WMI hwmon devices.
pub fn asus_hwmon_dir() -> (s: &'static str)
    ensures
        s@ == "/sys/devices/platform/asus-nb-wmi/hwmon"@,
{
    "/sys/devices/platform/asus-nb-wmi/hwmon"
}

/// When no fan spins (`primary` is 0), adds the Asus WMI readings
/// (`fan1_input` of each Asus hwmon device): each speed becomes a fan named
/// `cpu_fan`, and the last one the primary speed. Otherwise nothing changes.
pub fn asus_fallback(fans: &mut Vec<FanSensor>, primary: u32, contents: &Vec<Option<String>>) -> (p:
    u32)
    ensures
        primary != 0 ==> p == primary && final(fans)@ == old(fans)@,
        primary == 0 ==> fans_view(final(fans)@) == fans_view(old(fans)@) + asus_rpms(
            contents@,
        ).map_values(|r: u32| ("cpu_fan"@, r)),
        primary == 0 ==> p == if asus_rpms(contents@).len() > 0 {
            asus_rpms(contents@).last()
        } else {
            0u32
        },
{
    if primary != 0 {
        return primary;
    }
    let ghost start = fans_view(fans@);
    let mut p: u32 = 0;
    for i in 0..contents.len()
        invariant
            fans_view(fans@) == start + asus_rpms(contents@.take(i as int)).map_values(
                |r: u32| ("cpu_fan"@, r),
            ),
            p == if asus_rpms(contents@.take(i as int)).len() > 0 {
                asus_rpms(contents@.take(i as int)).last()
            } else {
                0u32
            },
    {
        proof {
            assert(contents@.take(i + 1).drop_last() =~= contents@.take(i as int));
        }
        let ghost prev = asus_rpms(contents@.take(i as int));
        match &contents[i] {
            Some(c) => {
                match parse_trimmed(c.as_str(), 4294967295) {
                    Some(v) => {
                        let rpm = v as u32;
                        p = rpm;
                        let ghost before = fans_view(fans@);
                        fans.push(FanSensor { name: string_from("cpu_fan"), rpm });
                        proof {
                            assert(asus_rpms(contents@.take(i + 1)) == prev.push(rpm));
                            assert(prev.push(rpm).map_values(|r: u32| ("cpu_fan"@, r))
                                =~= prev.map_values(|r: u32| ("cpu_fan"@, r)).push(
                                ("cpu_fan"@, rpm),
                            ));
                            assert(fans_view(fans@) =~= before.push(("cpu_fan"@, rpm)));
                        }
                    },
                    None => {},
                }
            },
            None => {},
        }
    }
    proof {
        assert(contents@.take(contents@.len() as int) =~= contents@);
    }
    p
}

/// The lower-case form of a text, as `str::to_lowercase` gives it (full
/// Unicode case mapping).
pub uninterp spec fn lowercase(s: Seq<char>) -> Seq<char>;

/// Calls `str::to_lowercase`: the text with every character mapped to its
/// lower-case form. The mapping is left to the name `lowercase`; it depends
/// on the text alone.
#[verifier::external_body]
fn to_lowercase(s: &str) -> (r: String)
    ensures
        r@ == lowercase(s@),
{
    s.to_lowercase()
}

/// Whether a thermal zone of this type measures the processor: its type,
/// in lower case, mentions `pkg` or `cpu`.
pub open spec fn is_cpu_zone_type(zone_type: Seq<char>) -> bool {
    has_infix(lowercase(zone_type), "pkg"@) || has_infix(lowercase(zone_type), "cpu"@)
}

/// Whether a thermal zone of this type measures the processor.
pub fn is_cpu_zone(zone_type: &str) -> (b: bool)
    ensures
        b == is_cpu_zone_type(zone_type@),
{
    let lower = to_lowercase(zone_type);
    let l = chars_of(lower.as_str());
    let pkg = chars_of("pkg");
    let cpu = chars_of("cpu");
    contains_chars(l.as_slice(), pkg.as_slice()) || contains_chars(l.as_slice(), cpu.as_slice())
}

/// Whether an entry of `/sys/class/thermal` is a thermal zone.
pub fn is_thermal_zone_dir(name: &str) -> (b: bool)
    ensures
        b == "thermal_zone"@.is_prefix_of(name@),
{
    let n = chars_of(name);
    begins_with(n.as_slice(), "thermal_zone")
}

} // verus!
