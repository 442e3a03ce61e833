//! Attestation IDs: the device identifiers that are provisioned to KeyMint.

use vstd::prelude::*;
use vstd::slice::slice_to_vec;
use vstd::string::*;
use crate::certs::line_texts;

verus! {

/// The attestation IDs that the user gives; each one that is not given is taken from a
/// system property, or left empty.
#[derive(Debug)]
pub struct AttestationIdsArgs {
    /// Brand.
    pub brand: Option<String>,
    /// Device.
    pub device: Option<String>,
    /// Product.
    pub product: Option<String>,
    /// Serial number.
    pub serial: Option<String>,
    /// Manufacturer.
    pub manufacturer: Option<String>,
    /// Model.
    pub model: Option<String>,
    /// MEID.
    pub meid: Option<String>,
    /// IMEI (slot 0).
    pub imei: Option<String>,
    /// Second IMEI (slot 1).
    pub imei2: Option<String>,
}

/// The attestation IDs of a device, as KeyMint stores them.
#[derive(Debug)]
pub struct AttestationIds {
    /// Brand.
    pub brand: Vec<u8>,
    /// Device.
    pub device: Vec<u8>,
    /// Product.
    pub product: Vec<u8>,
    /// Serial number.
    pub serial: Vec<u8>,
    /// IMEI (slot 0).
    pub imei: Vec<u8>,
    /// Second IMEI (slot 1).
    pub imei2: Vec<u8>,
    /// MEID.
    pub meid: Vec<u8>,
    /// Manufacturer.
    pub manufacturer: Vec<u8>,
    /// Model.
    pub model: Vec<u8>,
}

/// The system property that holds the brand when it is not given.
pub open spec fn brand_property() -> &'static str { "ro.product.brand" }
/// The system property that holds the device when it is not given.
pub open spec fn device_property() -> &'static str { "ro.product.device" }
/// The system property that holds the product when it is not given.
pub open spec fn product_property() -> &'static str { "ro.product.name" }
/// The system property that holds the serial number when it is not given.
pub open spec fn serial_property() -> &'static str { "ro.serialno" }
/// The system property that holds the manufacturer when it is not given.
pub open spec fn manufacturer_property() -> &'static str { "ro.product.manufacturer" }
/// The system property that holds the model when it is not given.
pub open spec fn model_property() -> &'static str { "ro.product.model" }

/// The UTF-8 bytes of the text `s`.
pub open spec fn text_bytes(s: String) -> Seq<u8> {
    vstd::utf8::encode_utf8(s@)
}

/// Whether `value` is what an ID with the given argument is: the argument's bytes if it
/// is given, else something that `get_prop` can return for the property `prop`.
pub open spec fn id_from_arg_or_prop<E, F: Fn(&'static str) -> Result<Vec<u8>, E>>(
    arg: Option<String>,
    prop: &'static str,
    get_prop: F,
    value: Vec<u8>,
) -> bool {
    match arg {
        Some(s) => value@ == text_bytes(s),
        None => get_prop.ensures((prop,), Ok::<Vec<u8>, E>(value)),
    }
}

/// Whether `e` is an error that `get_prop` can return for `prop`, where the argument
/// `arg` is not given.
pub open spec fn prop_error<E, F: Fn(&'static str) -> Result<Vec<u8>, E>>(
    arg: Option<String>,
    prop: &'static str,
    get_prop: F,
    e: E,
) -> bool {
    arg is None && get_prop.ensures((prop,), Err::<Vec<u8>, E>(e))
}

/// Whether an ID with the given argument can be had without error: the argument is
/// given, or `get_prop` can return a value for `prop`.
pub open spec fn id_available<E, F: Fn(&'static str) -> Result<Vec<u8>, E>>(
    arg: Option<String>,
    prop: &'static str,
    get_prop: F,
) -> bool {
    arg is Some || exists|v: Vec<u8>| #[trigger] get_prop.ensures((prop,), Ok::<Vec<u8>, E>(v))
}

/// Whether `value` is what an ID with the given argument is: the argument's bytes if it
/// is given, else empty.
pub open spec fn id_from_arg_or_empty(arg: Option<String>, value: Vec<u8>) -> bool {
    match arg {
        Some(s) => value@ == text_bytes(s),
        None => value@ == Seq::<u8>::empty(),
    }
}

/// The bytes of the text `s`.
fn text_to_bytes(s: &String) -> (r: Vec<u8>)
    ensures
        r@ == text_bytes(*s),
{
    slice_to_vec(s.as_str().as_bytes())
}

/// The argument's bytes if it is given, else the value of the system property `prop`.
fn arg_or_prop<E, F: Fn(&'static str) -> Result<Vec<u8>, E>>(
    arg: &Option<String>,
    prop: &'static str,
    get_prop: &F,
) -> (r: Result<Vec<u8>, E>)
    requires
        *arg is None ==> get_prop.requires((prop,)),
    ensures
        r matches Ok(v) ==> id_from_arg_or_prop(*arg, prop, *get_prop, v),
        r matches Err(e) ==> prop_error(*arg, prop, *get_prop, e),
        r is Ok ==> id_available(*arg, prop, *get_prop),
        arg is Some ==> r is Ok,
{
    match arg {
        Some(s) => Ok(text_to_bytes(s)),
        None => {
            let r = get_prop(prop);
            proof {
                if r is Ok {
                    let v = r->Ok_0;
                    assert(get_prop.ensures((prop,), Ok::<Vec<u8>, E>(v)));
                }
            }
            r
        },
    }
}

/// The argument's bytes if it is given, else empty.
fn arg_or_default(arg: &Option<String>) -> (r: Vec<u8>)
    ensures
        id_from_arg_or_empty(*arg, r),
{
    match arg {
        Some(s) => text_to_bytes(s),
        None => Vec::new(),
    }
}

/// Collects the attestation IDs to provision: each of brand, device, product, serial,
/// manufacturer and model is its argument if given, else the value of its system
/// property, read with `get_prop` (`ro.product.brand`, `ro.product.device`,
/// `ro.product.name`, `ro.serialno`, `ro.product.manufacturer`, `ro.product.model`);
/// each of IMEI, second IMEI and MEID is its argument if given, else empty.
///
/// The properties are read in that order, only for the IDs that are not given: `get_prop`
/// need accept only the properties of those IDs. The first read that fails stops the
/// collection with its error.
pub fn collect_attestation_ids<E, F: Fn(&'static str) -> Result<Vec<u8>, E>>(
    args: &AttestationIdsArgs,
    get_prop: F,
) -> (r: Result<AttestationIds, E>)
    requires
        args.brand is None ==> get_prop.requires((brand_property(),)),
        args.device is None ==> get_prop.requires((device_property(),)),
        args.product is None ==> get_prop.requires((product_property(),)),
        args.serial is None ==> get_prop.requires((serial_property(),)),
        args.manufacturer is None ==> get_prop.requires((manufacturer_property(),)),
        args.model is None ==> get_prop.requires((model_property(),)),
    ensures
        r matches Ok(ids) ==> {
            &&& id_from_arg_or_prop(args.brand, brand_property(), get_prop, ids.brand)
            &&& id_from_arg_or_prop(args.device, device_property(), get_prop, ids.device)
            &&& id_from_arg_or_prop(args.product, product_property(), get_prop, ids.product)
            &&& id_from_arg_or_prop(args.serial, serial_property(), get_prop, ids.serial)
            &&& id_from_arg_or_prop(args.manufacturer, manufacturer_property(), get_prop, ids.manufacturer)
            &&& id_from_arg_or_prop(args.model, model_property(), get_prop, ids.model)
            &&& id_from_arg_or_empty(args.imei, ids.imei)
            &&& id_from_arg_or_empty(args.imei2, ids.imei2)
            &&& id_from_arg_or_empty(args.meid, ids.meid)
        },
        r matches Err(e) ==> {
            ||| prop_error(args.brand, brand_property(), get_prop, e)
            ||| id_available(args.brand, brand_property(), get_prop) && {
                ||| prop_error(args.device, device_property(), get_prop, e)
                ||| id_available(args.device, device_property(), get_prop) && {
                    ||| prop_error(args.product, product_property(), get_prop, e)
                    ||| id_available(args.product, product_property(), get_prop) && {
                        ||| prop_error(args.serial, serial_property(), get_prop, e)
                        ||| id_available(args.serial, serial_property(), get_prop) && {
                            ||| prop_error(args.manufacturer, manufacturer_property(), get_prop, e)
                            ||| id_available(args.manufacturer, manufacturer_property(), get_prop)
                                && prop_error(args.model, model_property(), get_prop, e)
                        }
                    }
                }
            }
        },
        args.brand is Some && args.device is Some && args.product is Some && args.serial is Some
            && args.manufacturer is Some && args.model is Some ==> r is Ok,
{
    let brand = arg_or_prop(&args.brand, "ro.product.brand", &get_prop)?;
    let device = arg_or_prop(&args.device, "ro.product.device", &get_prop)?;
    let product = arg_or_prop(&args.product, "ro.product.name", &get_prop)?;
    let serial = arg_or_prop(&args.serial, "ro.serialno", &get_prop)?;
    let manufacturer = arg_or_prop(&args.manufacturer, "ro.product.manufacturer", &get_prop)?;
    let model = arg_or_prop(&args.model, "ro.product.model", &get_prop)?;
    Ok(AttestationIds {
        brand,
        device,
        product,
        serial,
        manufacturer,
        model,
        imei: arg_or_default(&args.imei),
        imei2: arg_or_default(&args.imei2),
        meid: arg_or_default(&args.meid),
    })
}

/// The character of the decimal digit `d`.
pub open spec fn digit_char(d: nat) -> char {
    (48 + d) as char
}

/// The decimal digits of `n`, most significant first, without leading zeros.
pub open spec fn decimal(n: nat) -> Seq<char>
    decreases n,
{
    if n < 10 {
        seq![digit_char(n)]
    } else {
        decimal(n / 10).push(digit_char(n % 10))
    }
}

/// The numbers of `bytes` in decimal, separated by ", ".
pub open spec fn byte_items(bytes: Seq<u8>) -> Seq<char>
    decreases bytes.len(),
{
    if bytes.len() == 0 {
        Seq::empty()
    } else if bytes.len() == 1 {
        decimal(bytes[0] as nat)
    } else {
        byte_items(bytes.drop_last()) + ", "@ + decimal(bytes.last() as nat)
    }
}

/// A list of bytes as its `Debug` form shows it: "[1, 2, 3]".
pub open spec fn byte_list(bytes: Seq<u8>) -> Seq<char> {
    "["@ + byte_items(bytes) + "]"@
}

/// The number that the decimal digits `s` stand for.
pub open spec fn digits_value(s: Seq<char>) -> int
    decreases s.len(),
{
    if s.len() == 0 {
        0
    } else {
        digits_value(s.drop_last()) * 10 + (s.last() as int - 48)
    }
}

/// Whether `c` is one of the decimal digits '0' to '9'.
pub open spec fn is_decimal_digit(c: char) -> bool {
    48 <= c as int <= 57
}

/// The decimal form of a number is a non-empty run of decimal digits, with no leading
/// zero unless the number is 0, and those digits read back as the number.
pub proof fn lemma_decimal_reads_back(n: nat)
    ensures
        decimal(n).len() > 0,
        forall|i: int| 0 <= i < decimal(n).len() ==> is_decimal_digit(#[trigger] decimal(n)[i]),
        n > 0 ==> decimal(n)[0] as int != 48,
        digits_value(decimal(n)) == n,
    decreases n,
{
    if n < 10 {
        assert(digit_char(n) as int == 48 + n);
        assert(decimal(n).drop_last() =~= Seq::<char>::empty());
        assert(digits_value(Seq::<char>::empty()) == 0);
        assert(digits_value(decimal(n)) == digits_value(decimal(n).drop_last()) * 10 + (decimal(n).last() as int - 48));
    } else {
        lemma_decimal_reads_back(n / 10);
        let d = decimal(n);
        let prefix = decimal(n / 10);
        assert(d.drop_last() == prefix);
        assert(digit_char(n % 10) as int == 48 + n % 10);
        assert(d.last() as int - 48 == n % 10);
        assert(n / 10 * 10 + n % 10 == n);
        assert(digits_value(d) == digits_value(prefix) * 10 + (d.last() as int - 48));
        assert(d[0] == prefix[0]);
        assert forall|i: int| 0 <= i < d.len() implies is_decimal_digit(#[trigger] d[i]) by {
            if i < prefix.len() {
                assert(d[i] == prefix[i]);
            }
        }
    }
}

/// The decimal forms of `bytes`, first to last, separated by ", ".
pub open spec fn decimals_joined(bytes: Seq<u8>) -> Seq<char>
    decreases bytes.len(),
{
    if bytes.len() == 0 {
        Seq::empty()
    } else if bytes.len() == 1 {
        decimal(bytes[0] as nat)
    } else {
        decimal(bytes[0] as nat) + ", "@ + decimals_joined(bytes.drop_first())
    }
}

/// Joining from the front ends with the last byte's decimal form.
proof fn lemma_decimals_joined_last(bytes: Seq<u8>)
    requires
        bytes.len() >= 2,
    ensures
        decimals_joined(bytes) == decimals_joined(bytes.drop_last()) + ", "@ + decimal(bytes.last() as nat),
    decreases bytes.len(),
{
    let rest = bytes.drop_first();
    if bytes.len() == 2 {
        assert(rest.len() == 1);
        assert(bytes.drop_last() =~= seq![bytes[0]]);
        assert(decimals_joined(rest) == decimal(rest[0] as nat));
        assert(decimals_joined(bytes.drop_last()) == decimal(bytes[0] as nat));
        assert(rest[0] == bytes.last());
    } else {
        lemma_decimals_joined_last(rest);
        assert(rest.drop_last() =~= bytes.drop_last().drop_first());
        assert(rest.last() == bytes.last());
        assert(bytes.drop_last()[0] == bytes[0]);
        let front = decimal(bytes[0] as nat);
        assert(decimals_joined(bytes) == front + ", "@ + decimals_joined(rest));
        assert(decimals_joined(bytes.drop_last()) == front + ", "@ + decimals_joined(rest.drop_last()));
        assert(decimals_joined(bytes) =~= decimals_joined(bytes.drop_last()) + ", "@ + decimal(bytes.last() as nat));
    }
}

/// The items of a byte list are the decimal forms of all the bytes, in order.
proof fn lemma_byte_items_joined(bytes: Seq<u8>)
    ensures
        byte_items(bytes) == decimals_joined(bytes),
    decreases bytes.len(),
{
    if bytes.len() >= 2 {
        lemma_byte_items_joined(bytes.drop_last());
        lemma_decimals_joined_last(bytes);
    }
}

/// A byte list shows every byte, first to last: "[", the decimal form of each byte
/// separated by ", ", then "]".
pub proof fn lemma_byte_list_shows_every_byte(bytes: Seq<u8>)
    ensures
        byte_list(bytes) == "["@ + decimals_joined(bytes) + "]"@,
{
    lemma_byte_items_joined(bytes);
}

/// The lines that show the attestation IDs `ids`.
pub open spec fn attestation_ids_lines(ids: AttestationIds) -> Seq<Seq<char>> {
    seq![
        "AttestationIds {"@,
        "  brand: "@ + byte_list(ids.brand@),
        "  device: "@ + byte_list(ids.device@),
        "  product: "@ + byte_list(ids.product@),
        "  serial: "@ + byte_list(ids.serial@),
        "  imei: "@ + byte_list(ids.imei@),
        "  imei2: "@ + byte_list(ids.imei2@),
        "  meid:  "@ + byte_list(ids.meid@),
        "  manufacturer: "@ + byte_list(ids.manufacturer@),
        "  model: "@ + byte_list(ids.model@),
        "}"@,
    ]
}

/// The text of the decimal digit `d`.
fn digit(d: u8) -> (r: &'static str)
    requires
        d < 10,
    ensures
        r@ == seq![digit_char(d as nat)],
{
    match d {
        0 => {
            proof {
                reveal_strlit("0");
            }
            "0"
        },
        1 => {
            proof {
                reveal_strlit("1");
            }
            "1"
        },
        2 => {
            proof {
                reveal_strlit("2");
            }
            "2"
        },
        3 => {
            proof {
                reveal_strlit("3");
            }
            "3"
        },
        4 => {
            proof {
                reveal_strlit("4");
            }
            "4"
        },
        5 => {
            proof {
                reveal_strlit("5");
            }
            "5"
        },
        6 => {
            proof {
                reveal_strlit("6");
            }
            "6"
        },
        7 => {
            proof {
                reveal_strlit("7");
            }
            "7"
        },
        8 => {
            proof {
                reveal_strlit("8");
            }
            "8"
        },
        _ => {
            proof {
                reveal_strlit("9");
            }
            "9"
        },
    }
}

/// Appends the decimal digits of `b` to `s`.
fn append_decimal(s: &mut String, b: u8)
    ensures
        final(s)@ == old(s)@ + decimal(b as nat),
{
    let ghost start = s@;
    if b >= 100 {
        s.append(digit(b / 100));
        s.append(digit((b / 10) % 10));
        s.append(digit(b % 10));
        assert((b / 10) as nat / 10 == (b / 100) as nat);
        assert(decimal((b / 100) as nat) == seq![digit_char((b / 100) as nat)]);
        assert(decimal((b / 10) as nat) == decimal((b / 100) as nat).push(digit_char(((b / 10) % 10) as nat)));
        assert(decimal(b as nat) == decimal((b / 10) as nat).push(digit_char((b % 10) as nat)));
    } else if b >= 10 {
        s.append(digit(b / 10));
        s.append(digit(b % 10));
        assert(decimal(b as nat) == decimal((b / 10) as nat).push(digit_char((b % 10) as nat)));
    } else {
        s.append(digit(b));
    }
    assert(s@ =~= start + decimal(b as nat));
}

/// `bytes` as its `Debug` form shows it.
fn render_byte_list(bytes: &Vec<u8>) -> (r: String)
    ensures
        r@ == byte_list(bytes@),
{
    let mut s = String::from_str("[");
    let mut i: usize = 0;
    assert(bytes@.take(0) =~= Seq::<u8>::empty());
    while i < bytes.len()
        invariant
            i <= bytes.len(),
            s@ == "["@ + byte_items(bytes@.take(i as int)),
        decreases bytes.len() - i,
    {
        let ghost before = s@;
        assert(bytes@.take(i + 1).drop_last() == bytes@.take(i as int));
        assert(bytes@.take(i + 1).last() == bytes@[i as int]);
        if i > 0 {
            s.append(", ");
        }
        append_decimal(&mut s, bytes[i]);
        if i == 0 {
            assert(bytes@.take(1) =~= seq![bytes@[0]]);
        }
        assert(s@ =~= "["@ + byte_items(bytes@.take(i + 1)));
        i = i + 1;
    }
    assert(bytes@.take(bytes.len() as int) =~= bytes@);
    s.append("]");
    s
}

/// One line of the attestation IDs: the label, then the bytes.
fn render_id_line(label: &'static str, bytes: &Vec<u8>) -> (r: String)
    ensures
        r@ == label@ + byte_list(bytes@),
{
    let mut line = String::from_str(label);
    let list = render_byte_list(bytes);
    line.append(list.as_str());
    line
}

/// The lines that show the attestation IDs `ids`: each ID by its label and the `Debug`
/// form of its bytes, between an opening and a closing line.
pub fn render_attestation_ids(ids: &AttestationIds) -> (r: Vec<String>)
    ensures
        line_texts(r@) == attestation_ids_lines(*ids),
{
    let mut lines: Vec<String> = Vec::new();
    lines.push(String::from_str("AttestationIds {"));
    lines.push(render_id_line("  brand: ", &ids.brand));
    lines.push(render_id_line("  device: ", &ids.device));
    lines.push(render_id_line("  product: ", &ids.product));
    lines.push(render_id_line("  serial: ", &ids.serial));
    lines.push(render_id_line("  imei: ", &ids.imei));
    lines.push(render_id_line("  imei2: ", &ids.imei2));
    lines.push(render_id_line("  meid:  ", &ids.meid));
    lines.push(render_id_line("  manufacturer: ", &ids.manufacturer));
    lines.push(render_id_line("  model: ", &ids.model));
    lines.push(String::from_str("}"));
    assert(line_texts(lines@) =~= attestation_ids_lines(*ids));
    lines
}

} // verus!
