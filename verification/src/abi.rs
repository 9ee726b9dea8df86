//! Which packages may be linked together, and the fingerprint of their ABI.
use vstd::prelude::*;
use vstd::string::*;

use crate::config;
use crate::config::AbiProfile;
use crate::digest;
use crate::failure::Failure;
use crate::text;

verus! {

broadcast use vstd::string::group_string_axioms;

// ---------------------------------------------------------------------------
// Model
// ---------------------------------------------------------------------------

/// Two settings agree unless both are made and differ.
pub open spec fn agree<T>(left: Option<T>, right: Option<T>) -> bool {
    left is Some && right is Some ==> left == right
}

/// Code built with the profile `a` can be linked with code built with `b`.
pub open spec fn abi_fits(a: config::AbiView, b: config::AbiView) -> bool {
    &&& agree(a.compiler, b.compiler)
    &&& agree(a.compiler_version, b.compiler_version)
    &&& agree(a.c_runtime, b.c_runtime)
    &&& agree(a.cxx_runtime, b.cxx_runtime)
    &&& agree(a.exceptions, b.exceptions)
    &&& agree(a.rtti, b.rtti)
    &&& agree(a.pic, b.pic)
    &&& agree(a.visibility, b.visibility)
    &&& agree(a.arch, b.arch)
}

/// Between which packages, and on what occasion, profiles are compared.
pub struct AbiPair {
    pub parent: Seq<char>,
    pub child: Seq<char>,
    pub context: Seq<char>,
}

/// How a difference is told.
pub open spec fn abi_message(
    pair: AbiPair,
    field: Seq<char>,
    left: Seq<char>,
    right: Seq<char>,
) -> Seq<char> {
    "ABI incompatibility ("@ + pair.context + ") between '"@ + pair.parent + "' and '"@ + pair.child
        + "': field '"@ + field + "' differs ("@ + left + " != "@ + right + ")"@
}

/// What is wrong with one text setting, if anything.
pub open spec fn text_conflict(
    pair: AbiPair,
    field: Seq<char>,
    left: Option<Seq<char>>,
    right: Option<Seq<char>>,
) -> Option<Seq<char>> {
    if agree(left, right) {
        None
    } else {
        Some(abi_message(pair, field, digest::quoted(left->0), digest::quoted(right->0)))
    }
}

/// A truth value as it is shown.
pub open spec fn shown_bool(value: bool) -> Seq<char> {
    if value {
        "true"@
    } else {
        "false"@
    }
}

/// What is wrong with one truth value, if anything.
pub open spec fn flag_conflict(
    pair: AbiPair,
    field: Seq<char>,
    left: Option<bool>,
    right: Option<bool>,
) -> Option<Seq<char>> {
    if agree(left, right) {
        None
    } else {
        Some(abi_message(pair, field, shown_bool(left->0), shown_bool(right->0)))
    }
}

/// The first of two complaints.
pub open spec fn either(first: Option<Seq<char>>, second: Option<Seq<char>>) -> Option<Seq<char>> {
    match first {
        Some(m) => Some(m),
        None => second,
    }
}

/// The complaint about the first field in which two profiles differ.
pub open spec fn abi_conflict(
    pair: AbiPair,
    a: config::AbiView,
    b: config::AbiView,
) -> Option<Seq<char>> {
    either(
        text_conflict(pair, "compiler"@, a.compiler, b.compiler),
        either(
            text_conflict(pair, "compiler_version"@, a.compiler_version, b.compiler_version),
            either(
                text_conflict(pair, "c_runtime"@, a.c_runtime, b.c_runtime),
                either(
                    text_conflict(pair, "cxx_runtime"@, a.cxx_runtime, b.cxx_runtime),
                    either(
                        flag_conflict(pair, "exceptions"@, a.exceptions, b.exceptions),
                        either(
                            flag_conflict(pair, "rtti"@, a.rtti, b.rtti),
                            either(
                                flag_conflict(pair, "pic"@, a.pic, b.pic),
                                either(
                                    text_conflict(
                                        pair,
                                        "visibility"@,
                                        a.visibility,
                                        b.visibility,
                                    ),
                                    text_conflict(pair, "arch"@, a.arch, b.arch),
                                ),
                            ),
                        ),
                    ),
                ),
            ),
        ),
    )
}

/// The text over which the fingerprint of a profile is taken.
pub open spec fn abi_text(cpp_standard: Seq<char>, abi: config::AbiView) -> Seq<char> {
    "cpp_standard="@ + cpp_standard + "\ncompiler="@ + digest::quoted_opt(abi.compiler)
        + "\ncompiler_version="@ + digest::quoted_opt(abi.compiler_version) + "\nc_runtime="@
        + digest::quoted_opt(abi.c_runtime) + "\ncxx_runtime="@ + digest::quoted_opt(
        abi.cxx_runtime,
    ) + "\nexceptions="@ + digest::shown_flag(abi.exceptions) + "\nrtti="@ + digest::shown_flag(
        abi.rtti,
    ) + "\npic="@ + digest::shown_flag(abi.pic) + "\nvisibility="@ + digest::quoted_opt(
        abi.visibility,
    ) + "\narch="@ + digest::quoted_opt(abi.arch) + "\n"@
}

/// The fingerprint of a profile.
pub open spec fn abi_fingerprint(cpp_standard: Seq<char>, abi: config::AbiView) -> Seq<char> {
    digest::text_digest(abi_text(cpp_standard, abi))
}

// ---------------------------------------------------------------------------
// Laws
// ---------------------------------------------------------------------------

/// There is a complaint about two profiles exactly when they do not fit.
pub proof fn conflict_iff_misfit(pair: AbiPair, a: config::AbiView, b: config::AbiView)
    ensures
        abi_conflict(pair, a, b) is None <==> abi_fits(a, b),
{
}

/// Fitting together does not depend on which package is the parent.
pub proof fn fitting_is_symmetric(a: config::AbiView, b: config::AbiView)
    ensures
        abi_fits(a, b) == abi_fits(b, a),
{
}

/// The profile that fixes nothing fits every profile.
pub proof fn open_abi_fits_all(a: config::AbiView)
    ensures
        abi_fits(a, config::open_abi()),
        abi_fits(config::open_abi(), a),
{
}

/// Two profiles fit exactly if no setting is made in both of them and made
/// differently, whichever setting that is.
pub proof fn every_setting_counts(a: config::AbiView, b: config::AbiView)
    ensures
        abi_fits(a, b) <==> {
            &&& a.compiler is None || b.compiler is None || a.compiler == b.compiler
            &&& a.compiler_version is None || b.compiler_version is None || a.compiler_version
                == b.compiler_version
            &&& a.c_runtime is None || b.c_runtime is None || a.c_runtime == b.c_runtime
            &&& a.cxx_runtime is None || b.cxx_runtime is None || a.cxx_runtime == b.cxx_runtime
            &&& a.exceptions is None || b.exceptions is None || a.exceptions == b.exceptions
            &&& a.rtti is None || b.rtti is None || a.rtti == b.rtti
            &&& a.pic is None || b.pic is None || a.pic == b.pic
            &&& a.visibility is None || b.visibility is None || a.visibility == b.visibility
            &&& a.arch is None || b.arch is None || a.arch == b.arch
        },
{
}

/// A complaint names the occasion, both packages, the setting and both values; that
/// of the compiler comes first, then those of its version, of the runtimes, of the
/// flags, of the visibility and of the architecture.
pub proof fn complaints_name_the_setting(pair: AbiPair, a: config::AbiView, b: config::AbiView)
    ensures
        ({
            let front = "ABI incompatibility ("@ + pair.context + ") between '"@ + pair.parent
                + "' and '"@ + pair.child + "': field '"@;
            &&& a.compiler is Some && b.compiler is Some && a.compiler != b.compiler
                ==> abi_conflict(pair, a, b) == Some(
                front + "compiler"@ + "' differs ("@ + digest::quoted(a.compiler->0) + " != "@
                    + digest::quoted(b.compiler->0) + ")"@,
            )
            &&& a.compiler is None ==> {
                &&& a.compiler_version is Some && b.compiler_version is Some && a.compiler_version
                    != b.compiler_version ==> abi_conflict(pair, a, b) == Some(
                    front + "compiler_version"@ + "' differs ("@ + digest::quoted(
                        a.compiler_version->0,
                    ) + " != "@ + digest::quoted(b.compiler_version->0) + ")"@,
                )
                &&& a.compiler_version is None && a.c_runtime is Some && b.c_runtime is Some
                    && a.c_runtime != b.c_runtime ==> abi_conflict(pair, a, b) == Some(
                    front + "c_runtime"@ + "' differs ("@ + digest::quoted(a.c_runtime->0)
                        + " != "@ + digest::quoted(b.c_runtime->0) + ")"@,
                )
                &&& a.compiler_version is None && a.c_runtime is None && a.cxx_runtime is Some
                    && b.cxx_runtime is Some && a.cxx_runtime != b.cxx_runtime ==> abi_conflict(
                    pair,
                    a,
                    b,
                ) == Some(
                    front + "cxx_runtime"@ + "' differs ("@ + digest::quoted(a.cxx_runtime->0)
                        + " != "@ + digest::quoted(b.cxx_runtime->0) + ")"@,
                )
                &&& a.compiler_version is None && a.c_runtime is None && a.cxx_runtime is None ==> {
                    &&& a.exceptions == Some(true) && b.exceptions == Some(false) ==> abi_conflict(
                        pair,
                        a,
                        b,
                    ) == Some(
                        front + "exceptions"@ + "' differs ("@ + "true"@ + " != "@ + "false"@
                            + ")"@,
                    )
                    &&& a.exceptions is None && a.rtti == Some(true) && b.rtti == Some(false)
                        ==> abi_conflict(pair, a, b) == Some(
                        front + "rtti"@ + "' differs ("@ + "true"@ + " != "@ + "false"@ + ")"@,
                    )
                    &&& a.exceptions is None && a.rtti is None && a.pic == Some(false) && b.pic
                        == Some(true) ==> abi_conflict(pair, a, b) == Some(
                        front + "pic"@ + "' differs ("@ + "false"@ + " != "@ + "true"@ + ")"@,
                    )
                    &&& a.exceptions is None && a.rtti is None && a.pic is None && a.visibility
                        is Some && b.visibility is Some && a.visibility != b.visibility
                        ==> abi_conflict(pair, a, b) == Some(
                        front + "visibility"@ + "' differs ("@ + digest::quoted(a.visibility->0)
                            + " != "@ + digest::quoted(b.visibility->0) + ")"@,
                    )
                    &&& a.exceptions is None && a.rtti is None && a.pic is None && a.visibility
                        is None && a.arch is Some && b.arch is Some && a.arch != b.arch
                        ==> abi_conflict(pair, a, b) == Some(
                        front + "arch"@ + "' differs ("@ + digest::quoted(a.arch->0) + " != "@
                            + digest::quoted(b.arch->0) + ")"@,
                    )
                }
            }
        }),
{
}

/// The fingerprint of a profile covers the C++ standard and every setting.
pub proof fn fingerprint_covers_every_setting(cpp_standard: Seq<char>, abi: config::AbiView)
    ensures
        ({
            let whole = abi_text(cpp_standard, abi);
            &&& text::has_text(whole, "cpp_standard="@ + cpp_standard)
            &&& text::has_text(whole, "\ncompiler="@ + digest::quoted_opt(abi.compiler))
            &&& text::has_text(
                whole,
                "\ncompiler_version="@ + digest::quoted_opt(abi.compiler_version),
            )
            &&& text::has_text(whole, "\nc_runtime="@ + digest::quoted_opt(abi.c_runtime))
            &&& text::has_text(whole, "\ncxx_runtime="@ + digest::quoted_opt(abi.cxx_runtime))
            &&& text::has_text(whole, "\nexceptions="@ + digest::shown_flag(abi.exceptions))
            &&& text::has_text(whole, "\nrtti="@ + digest::shown_flag(abi.rtti))
            &&& text::has_text(whole, "\npic="@ + digest::shown_flag(abi.pic))
            &&& text::has_text(whole, "\nvisibility="@ + digest::quoted_opt(abi.visibility))
            &&& text::has_text(whole, "\narch="@ + digest::quoted_opt(abi.arch))
        }),
        abi_fingerprint(cpp_standard, abi) == digest::sha256_hex_of(
            vstd::utf8::encode_utf8(abi_text(cpp_standard, abi)),
        ),
{
    text::lemma_held();
    text::lemma_ends_are_held();
}

// ---------------------------------------------------------------------------
// Functions
// ---------------------------------------------------------------------------

fn message(
    parent_name: &str,
    child_name: &str,
    context: &str,
    field_name: &str,
    left: &str,
    right: &str,
) -> (r: Failure)
    ensures
        r@ == abi_message(
            (AbiPair { parent: parent_name@, child: child_name@, context: context@ }),
            field_name@,
            left@,
            right@,
        ),
{
    let mut out = "ABI incompatibility (".to_owned();
    out.append(context);
    out.append(") between '");
    out.append(parent_name);
    out.append("' and '");
    out.append(child_name);
    out.append("': field '");
    out.append(field_name);
    out.append("' differs (");
    out.append(left);
    out.append(" != ");
    out.append(right);
    out.append(")");
    Failure::new(out)
}

/// Complains where two text settings are made and differ.
pub fn ensure_abi_field_match(
    parent_name: &str,
    child_name: &str,
    context: &str,
    field_name: &str,
    parent: &Option<String>,
    child: &Option<String>,
) -> (r: Result<(), Failure>)
    ensures
        r is Ok <==> agree(text::opt_text(*parent), text::opt_text(*child)),
        r matches Err(e) ==> Some(e@) == text_conflict(
            (AbiPair { parent: parent_name@, child: child_name@, context: context@ }),
            field_name@,
            text::opt_text(*parent),
            text::opt_text(*child),
        ),
{
    if let (Some(left), Some(right)) = (parent, child) {
        if *left != *right {
            let shown_left = digest::quote(left.as_str());
            let shown_right = digest::quote(right.as_str());
            return Err(
                message(
                    parent_name,
                    child_name,
                    context,
                    field_name,
                    shown_left.as_str(),
                    shown_right.as_str(),
                ),
            );
        }
    }
    Ok(())
}

fn show_bool(value: bool) -> (r: String)
    ensures
        r@ == shown_bool(value),
{
    if value {
        "true".to_owned()
    } else {
        "false".to_owned()
    }
}

/// Complains where two truth values are set and differ.
pub fn ensure_abi_flag_match(
    parent_name: &str,
    child_name: &str,
    context: &str,
    field_name: &str,
    parent: Option<bool>,
    child: Option<bool>,
) -> (r: Result<(), Failure>)
    ensures
        r is Ok <==> agree(parent, child),
        r matches Err(e) ==> Some(e@) == flag_conflict(
            (AbiPair { parent: parent_name@, child: child_name@, context: context@ }),
            field_name@,
            parent,
            child,
        ),
{
    if let (Some(left), Some(right)) = (parent, child) {
        if left != right {
            let shown_left = show_bool(left);
            let shown_right = show_bool(right);
            return Err(
                message(
                    parent_name,
                    child_name,
                    context,
                    field_name,
                    shown_left.as_str(),
                    shown_right.as_str(),
                ),
            );
        }
    }
    Ok(())
}

/// Complains about the first field in which two profiles differ.
pub fn validate_abi_compatibility(
    parent_name: &str,
    parent: &AbiProfile,
    child_name: &str,
    child: &AbiProfile,
    context: &str,
) -> (r: Result<(), Failure>)
    ensures
        r is Ok <==> abi_fits(parent@, child@),
        r matches Err(e) ==> Some(e@) == abi_conflict(
            (AbiPair { parent: parent_name@, child: child_name@, context: context@ }),
            parent@,
            child@,
        ),
{
    let (p, c, x) = (parent_name, child_name, context);
    if let Err(e) = ensure_abi_field_match(p, c, x, "compiler", &parent.compiler, &child.compiler) {
        return Err(e);
    }
    if let Err(e) = ensure_abi_field_match(
        p,
        c,
        x,
        "compiler_version",
        &parent.compiler_version,
        &child.compiler_version,
    ) {
        return Err(e);
    }
    if let Err(e) = ensure_abi_field_match(
        p,
        c,
        x,
        "c_runtime",
        &parent.c_runtime,
        &child.c_runtime,
    ) {
        return Err(e);
    }
    if let Err(e) = ensure_abi_field_match(
        p,
        c,
        x,
        "cxx_runtime",
        &parent.cxx_runtime,
        &child.cxx_runtime,
    ) {
        return Err(e);
    }
    if let Err(e) = ensure_abi_flag_match(
        p,
        c,
        x,
        "exceptions",
        parent.exceptions,
        child.exceptions,
    ) {
        return Err(e);
    }
    if let Err(e) = ensure_abi_flag_match(p, c, x, "rtti", parent.rtti, child.rtti) {
        return Err(e);
    }
    if let Err(e) = ensure_abi_flag_match(p, c, x, "pic", parent.pic, child.pic) {
        return Err(e);
    }
    if let Err(e) = ensure_abi_field_match(
        p,
        c,
        x,
        "visibility",
        &parent.visibility,
        &child.visibility,
    ) {
        return Err(e);
    }
    if let Err(e) = ensure_abi_field_match(p, c, x, "arch", &parent.arch, &child.arch) {
        return Err(e);
    }
    Ok(())
}

/// The fingerprint of a profile.
pub fn build_abi_fingerprint(cpp_standard: &str, abi: &AbiProfile) -> (r: String)
    ensures
        r@ == abi_fingerprint(cpp_standard@, abi@),
        digest::is_digest(r@),
{
    let mut out = "cpp_standard=".to_owned();
    out.append(cpp_standard);
    out.append("\ncompiler=");
    out.append(digest::quote_opt(&abi.compiler).as_str());
    out.append("\ncompiler_version=");
    out.append(digest::quote_opt(&abi.compiler_version).as_str());
    out.append("\nc_runtime=");
    out.append(digest::quote_opt(&abi.c_runtime).as_str());
    out.append("\ncxx_runtime=");
    out.append(digest::quote_opt(&abi.cxx_runtime).as_str());
    out.append("\nexceptions=");
    out.append(digest::show_flag(abi.exceptions).as_str());
    out.append("\nrtti=");
    out.append(digest::show_flag(abi.rtti).as_str());
    out.append("\npic=");
    out.append(digest::show_flag(abi.pic).as_str());
    out.append("\nvisibility=");
    out.append(digest::quote_opt(&abi.visibility).as_str());
    out.append("\narch=");
    out.append(digest::quote_opt(&abi.arch).as_str());
    out.append("\n");
    digest::digest_of_text(out.as_str())
}

}
