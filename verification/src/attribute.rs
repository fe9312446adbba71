//! The storage-instrumenting attribute on its tokens: `syn` parses the options and the
//! `impl` block, and each parsed node is read into the plain values that
//! `instrument::expand` plans on.

use vstd::prelude::*;
use crate::instrument::{
    expand, expand_outcome, read_args, refused, Args, AttrArg, AttrError, GenericArg, MethodPlan, MethodSig, OutputType,
};

verus! {

#[verifier::external_type_specification]
#[verifier::external_body]
pub struct ExTokenStream(proc_macro2::TokenStream);

#[verifier::external_type_specification]
#[verifier::external_body]
pub struct ExItemImpl(syn::ItemImpl);

#[verifier::external_type_specification]
#[verifier::external_body]
pub struct ExImplItemFn(syn::ImplItemFn);

#[verifier::external_type_specification]
#[verifier::external_body]
pub struct ExMetaNameValue(syn::MetaNameValue);

#[verifier::external_type_specification]
#[verifier::external_body]
pub struct ExPathSegment(syn::PathSegment);

/// What `syn` parses from the attribute's tokens as `key = value` options separated by
/// commas; `None` where they do not parse.
pub uninterp spec fn parsed_options(tokens: proc_macro2::TokenStream) -> Option<Seq<syn::MetaNameValue>>;

/// The name of an option, where its path is one identifier.
pub uninterp spec fn option_key_of(option: syn::MetaNameValue) -> Option<String>;

/// The value of an option, where it is a string literal.
pub uninterp spec fn option_value_of(option: syn::MetaNameValue) -> Option<String>;

/// What `syn` parses from the item's tokens as an `impl` block; `None` where they do not
/// parse.
pub uninterp spec fn parsed_impl(tokens: proc_macro2::TokenStream) -> Option<syn::ItemImpl>;

/// The number of items of an `impl` block.
pub uninterp spec fn impl_items_len(implementation: syn::ItemImpl) -> usize;

/// The item at `index` of an `impl` block, where it is a method.
pub uninterp spec fn impl_method(implementation: syn::ItemImpl, index: usize) -> Option<syn::ImplItemFn>;

/// A method's name.
pub uninterp spec fn method_name_of(method: syn::ImplItemFn) -> String;

/// The number of a method's arguments, `self` included.
pub uninterp spec fn inputs_len(method: syn::ImplItemFn) -> usize;

/// The identifier of a method's argument `index`, where its pattern is a plain identifier
/// with a type.
pub uninterp spec fn input_ident_of(method: syn::ImplItemFn, index: usize) -> Option<String>;

/// The number of a method's attributes.
pub uninterp spec fn attrs_len(method: syn::ImplItemFn) -> usize;

/// Whether the path of a method's attribute `index` is the single identifier `name`.
pub uninterp spec fn attr_is_named(method: syn::ImplItemFn, index: usize, name: Seq<char>) -> bool;

/// Whether a method declares no return type.
pub uninterp spec fn returns_default(method: syn::ImplItemFn) -> bool;

/// The last segment of a method's return type, where that is a path type.
pub uninterp spec fn output_segment_of(method: syn::ImplItemFn) -> Option<syn::PathSegment>;

/// A path segment's identifier.
pub uninterp spec fn segment_ident_of(segment: syn::PathSegment) -> String;

/// The number of a path segment's angle-bracketed generic arguments, where it has them.
pub uninterp spec fn segment_args_len(segment: syn::PathSegment) -> Option<usize>;

/// The kind of a path segment's generic argument `index`.
pub uninterp spec fn segment_arg_of(segment: syn::PathSegment, index: usize) -> GenericArg;

/// Parses the attribute's tokens with `syn` as `key = value` options separated by commas
/// (`Punctuated::parse_terminated`); `None` where they do not parse.
#[verifier::external_body]
fn parse_options(tokens: proc_macro2::TokenStream) -> (r: Option<Vec<syn::MetaNameValue>>)
    ensures
        match r {
            Some(values) => parsed_options(tokens) == Some(values@),
            None => parsed_options(tokens) is None,
        },
{
    let parser = syn::punctuated::Punctuated::<syn::MetaNameValue, syn::token::Comma>::parse_terminated;
    syn::parse::Parser::parse2(parser, tokens).ok().map(|values| values.into_iter().collect())
}

/// The option's name, where its path is one identifier (`Path::get_ident`).
#[verifier::external_body]
fn option_key(option: &syn::MetaNameValue) -> (r: Option<String>)
    ensures
        r == option_key_of(*option),
{
    option.path.get_ident().map(|ident| ident.to_string())
}

/// The option's value, where it is a string literal (`LitStr::value`).
#[verifier::external_body]
fn option_value(option: &syn::MetaNameValue) -> (r: Option<String>)
    ensures
        r == option_value_of(*option),
{
    match &option.value {
        syn::Expr::Lit(syn::ExprLit { lit: syn::Lit::Str(value), .. }) => Some(value.value()),
        _ => None,
    }
}

/// Parses the item's tokens with `syn::parse2` as an `impl` block; `None` where they do
/// not parse.
#[verifier::external_body]
fn parse_impl(tokens: proc_macro2::TokenStream) -> (r: Option<syn::ItemImpl>)
    ensures
        r == parsed_impl(tokens),
{
    syn::parse2::<syn::ItemImpl>(tokens).ok()
}

/// The number of items of the `impl` block.
#[verifier::external_body]
fn impl_item_count(implementation: &syn::ItemImpl) -> (r: usize)
    ensures
        r == impl_items_len(*implementation),
{
    implementation.items.len()
}

/// The item at `index` of the `impl` block, where it is a method.
#[verifier::external_body]
fn impl_method_at<'a>(implementation: &'a syn::ItemImpl, index: usize) -> (r: Option<&'a syn::ImplItemFn>)
    ensures
        match r {
            Some(method) => impl_method(*implementation, index) == Some(*method),
            None => impl_method(*implementation, index) is None,
        },
{
    match implementation.items.get(index) {
        Some(syn::ImplItem::Fn(method)) => Some(method),
        _ => None,
    }
}

/// The method's name.
#[verifier::external_body]
fn method_name(method: &syn::ImplItemFn) -> (r: String)
    ensures
        r == method_name_of(*method),
{
    method.sig.ident.to_string()
}

/// The number of the method's arguments, `self` included.
#[verifier::external_body]
fn input_count(method: &syn::ImplItemFn) -> (r: usize)
    ensures
        r == inputs_len(*method),
{
    method.sig.inputs.len()
}

/// The identifier of argument `index`, where its pattern is a plain identifier with a type.
#[verifier::external_body]
fn input_ident(method: &syn::ImplItemFn, index: usize) -> (r: Option<String>)
    ensures
        r == input_ident_of(*method, index),
{
    match method.sig.inputs.iter().nth(index) {
        Some(syn::FnArg::Typed(input)) => match input.pat.as_ref() {
            syn::Pat::Ident(pattern) => Some(pattern.ident.to_string()),
            _ => None,
        },
        _ => None,
    }
}

/// The number of the method's attributes.
#[verifier::external_body]
fn attr_count(method: &syn::ImplItemFn) -> (r: usize)
    ensures
        r == attrs_len(*method),
{
    method.attrs.len()
}

/// Whether the path of attribute `index` is the single identifier `name` (`Path::is_ident`).
#[verifier::external_body]
fn attr_is(method: &syn::ImplItemFn, index: usize, name: &str) -> (r: bool)
    ensures
        r == attr_is_named(*method, index, name@),
{
    match method.attrs.get(index) {
        Some(attribute) => attribute.path().is_ident(name),
        None => false,
    }
}

/// Whether the method declares no return type (`ReturnType::Default`).
#[verifier::external_body]
fn returns_nothing(method: &syn::ImplItemFn) -> (r: bool)
    ensures
        r == returns_default(*method),
{
    matches!(method.sig.output, syn::ReturnType::Default)
}

/// The last segment of the return type's path, where the return type is a path type.
#[verifier::external_body]
fn output_segment(method: &syn::ImplItemFn) -> (r: Option<&syn::PathSegment>)
    ensures
        match r {
            Some(segment) => output_segment_of(*method) == Some(*segment),
            None => output_segment_of(*method) is None,
        },
{
    match &method.sig.output {
        syn::ReturnType::Type(_, output) => match output.as_ref() {
            syn::Type::Path(path) => path.path.segments.last(),
            _ => None,
        },
        syn::ReturnType::Default => None,
    }
}

/// The segment's identifier.
#[verifier::external_body]
fn segment_ident(segment: &syn::PathSegment) -> (r: String)
    ensures
        r == segment_ident_of(*segment),
{
    segment.ident.to_string()
}

/// The number of the segment's angle-bracketed generic arguments, where it has them.
#[verifier::external_body]
fn segment_arg_count(segment: &syn::PathSegment) -> (r: Option<usize>)
    ensures
        r == segment_args_len(*segment),
{
    match &segment.arguments {
        syn::PathArguments::AngleBracketed(arguments) => Some(arguments.args.len()),
        _ => None,
    }
}

/// The kind of the segment's generic argument `index`.
#[verifier::external_body]
fn segment_arg(segment: &syn::PathSegment, index: usize) -> (r: GenericArg)
    ensures
        r == segment_arg_of(*segment, index),
{
    let arguments = match &segment.arguments {
        syn::PathArguments::AngleBracketed(arguments) => arguments.args.iter().nth(index),
        _ => None,
    };
    match arguments {
        Some(syn::GenericArgument::Type(_)) => GenericArg::Type,
        Some(syn::GenericArgument::Lifetime(_)) => GenericArg::Lifetime,
        _ => GenericArg::Other,
    }
}

/// An option read into its name and its string value.
pub open spec fn option_arg(option: syn::MetaNameValue) -> AttrArg {
    AttrArg { key: option_key_of(option), value: option_value_of(option) }
}

/// The options of the attribute's tokens, each read into its name and its string value;
/// `None` where the tokens do not parse as options.
pub open spec fn attr_options(tokens: proc_macro2::TokenStream) -> Option<Seq<AttrArg>> {
    match parsed_options(tokens) {
        Some(values) => Some(values.map_values(|option: syn::MetaNameValue| option_arg(option))),
        None => None,
    }
}

/// The methods among the first `n` items of an `impl` block, in order.
pub open spec fn impl_fns(implementation: syn::ItemImpl, n: int) -> Seq<syn::ImplItemFn>
    decreases n,
{
    if n <= 0 {
        Seq::empty()
    } else {
        let before = impl_fns(implementation, n - 1);
        match impl_method(implementation, (n - 1) as usize) {
            Some(method) => before.push(method),
            None => before,
        }
    }
}

/// Whether `output` is the shape of the method's return type.
pub open spec fn output_read(method: syn::ImplItemFn, output: OutputType) -> bool {
    match output {
        OutputType::Default => returns_default(method),
        OutputType::Path { last_segment, args } => {
            &&& !returns_default(method)
            &&& output_segment_of(method) matches Some(segment)
            &&& last_segment == segment_ident_of(segment)
            &&& match args {
                Some(kinds) => segment_args_len(segment) matches Some(n)
                    && kinds@ == Seq::new(n as nat, |j: int| segment_arg_of(segment, j as usize)),
                None => segment_args_len(segment) is None,
            }
        },
        OutputType::Other => !returns_default(method) && output_segment_of(method) is None,
    }
}

/// Whether the method carries the `trace_iterator` marker attribute.
pub open spec fn has_marker(method: syn::ImplItemFn) -> bool {
    exists|k: usize| k < attrs_len(method) && #[trigger] attr_is_named(method, k, "trace_iterator"@)
}

/// Whether `sig` is the method read into its name, argument identifiers, return type
/// shape and marker.
pub open spec fn sig_read(method: syn::ImplItemFn, sig: MethodSig) -> bool {
    &&& sig.name == method_name_of(method)
    &&& sig.inputs@ == Seq::new(inputs_len(method) as nat, |i: int| input_ident_of(method, i as usize))
    &&& output_read(method, sig.output)
    &&& sig.trace_iterator_attr == has_marker(method)
}

/// Whether the item's tokens parse as an `impl` block whose methods, in order, are read
/// into `methods`.
pub open spec fn methods_read(tokens: proc_macro2::TokenStream, methods: Seq<MethodSig>) -> bool {
    parsed_impl(tokens) matches Some(implementation) && {
        let fns = impl_fns(implementation, impl_items_len(implementation) as int);
        &&& methods.len() == fns.len()
        &&& forall|i: int| 0 <= i < methods.len() ==> sig_read(fns[i], #[trigger] methods[i])
    }
}

/// Whether `expand` accepts these options and methods: the options name the attribute,
/// and no method's iterator is to be wrapped without a `Result` to wrap.
pub open spec fn expand_accepts(attr: Seq<AttrArg>, methods: Seq<MethodSig>) -> bool {
    read_args(attr, attr.len() as int) matches Ok((Some(_), _, iterator))
        && forall|i: int| 0 <= i < methods.len() ==> !refused(iterator, #[trigger] methods[i])
}

/// The options, each read into its name and its string value.
fn read_options(values: &Vec<syn::MetaNameValue>) -> (args: Vec<AttrArg>)
    ensures
        args@ == values@.map_values(|option: syn::MetaNameValue| option_arg(option)),
{
    let mut args: Vec<AttrArg> = Vec::new();
    let mut i: usize = 0;
    while i < values.len()
        invariant
            i <= values.len(),
            args.len() == i,
            forall|k: int| 0 <= k < i ==> #[trigger] args@[k] == option_arg(values@[k]),
        decreases values.len() - i,
    {
        args.push(AttrArg { key: option_key(&values[i]), value: option_value(&values[i]) });
        i = i + 1;
    }
    assert(args@ =~= values@.map_values(|option: syn::MetaNameValue| option_arg(option)));
    args
}

/// The shape of the method's return type.
fn output_type(method: &syn::ImplItemFn) -> (output: OutputType)
    ensures
        output_read(*method, output),
{
    if returns_nothing(method) {
        return OutputType::Default;
    }
    match output_segment(method) {
        Some(segment) => {
            let args = match segment_arg_count(segment) {
                Some(n) => {
                    let mut kinds: Vec<GenericArg> = Vec::new();
                    let mut j: usize = 0;
                    while j < n
                        invariant
                            j <= n,
                            kinds.len() == j,
                            forall|k: int| 0 <= k < j ==> #[trigger] kinds@[k] == segment_arg_of(*segment, k as usize),
                        decreases n - j,
                    {
                        kinds.push(segment_arg(segment, j));
                        j = j + 1;
                    }
                    assert(kinds@ =~= Seq::new(n as nat, |k: int| segment_arg_of(*segment, k as usize)));
                    Some(kinds)
                },
                None => None,
            };
            OutputType::Path { last_segment: segment_ident(segment), args }
        },
        None => OutputType::Other,
    }
}

/// The method as the attribute plans on it: its name, its argument identifiers, the
/// shape of its return type, and whether it carries the `trace_iterator` marker.
fn method_sig(method: &syn::ImplItemFn) -> (sig: MethodSig)
    ensures
        sig_read(*method, sig),
{
    let n = input_count(method);
    let mut inputs: Vec<Option<String>> = Vec::new();
    let mut i: usize = 0;
    while i < n
        invariant
            i <= n,
            inputs.len() == i,
            forall|k: int| 0 <= k < i ==> #[trigger] inputs@[k] == input_ident_of(*method, k as usize),
        decreases n - i,
    {
        inputs.push(input_ident(method, i));
        i = i + 1;
    }
    assert(inputs@ =~= Seq::new(n as nat, |k: int| input_ident_of(*method, k as usize)));
    let marker = "trace_iterator";
    let m = attr_count(method);
    let mut trace_iterator_attr = false;
    let mut k: usize = 0;
    while k < m
        invariant
            k <= m,
            m == attrs_len(*method),
            marker@ == "trace_iterator"@,
            trace_iterator_attr <==> exists|j: usize| j < k && #[trigger] attr_is_named(*method, j, "trace_iterator"@),
        decreases m - k,
    {
        if attr_is(method, k, marker) {
            trace_iterator_attr = true;
        }
        k = k + 1;
    }
    MethodSig { name: method_name(method), inputs, output: output_type(method), trace_iterator_attr }
}

/// What the attribute makes of an `impl` block: the block, its options and methods read
/// into plain values, and what `expand` planned for them.
pub struct Expansion {
    pub item: syn::ItemImpl,
    pub attr_args: Vec<AttrArg>,
    pub methods: Vec<MethodSig>,
    pub args: Args,
    pub plans: Vec<MethodPlan>,
}

/// The attribute on its tokens: parses the options and reads them (refusing bad ones
/// before the item is looked at), parses the `impl` block, reads each of its methods in
/// order, and plans them with `expand`.
pub fn expand_tokens(attr: proc_macro2::TokenStream, item: proc_macro2::TokenStream) -> (r: Result<Expansion, AttrError>)
    ensures
        match attr_options(attr) {
            None => r == Err::<Expansion, AttrError>(AttrError::AttrSyntax),
            Some(options) => match read_args(options, options.len() as int) {
                Err(e) => r == Err::<Expansion, AttrError>(e),
                Ok((None, _, _)) => r == Err::<Expansion, AttrError>(AttrError::MissingName),
                Ok((Some(_), _, _)) => if parsed_impl(item) is None {
                    r == Err::<Expansion, AttrError>(AttrError::ItemSyntax)
                } else {
                    &&& r matches Ok(x) ==> {
                        &&& x.attr_args@ == options
                        &&& methods_read(item, x.methods@)
                        &&& expand_outcome(options, x.methods@, Ok((x.args, x.plans)))
                    }
                    &&& r matches Err(e) ==> exists|methods: Seq<MethodSig>|
                        methods_read(item, methods) && #[trigger] expand_outcome(options, methods, Err(e))
                    &&& (forall|methods: Seq<MethodSig>| #[trigger] methods_read(item, methods) ==> expand_accepts(options, methods))
                        ==> r is Ok
                },
            },
        },
{
    let values = match parse_options(attr) {
        Some(values) => values,
        None => {
            return Err(AttrError::AttrSyntax);
        },
    };
    let attr_args = read_options(&values);
    match Args::parse(attr_args.as_slice()) {
        Ok(_) => {},
        Err(e) => {
            return Err(e);
        },
    }
    let implementation = match parse_impl(item) {
        Some(implementation) => implementation,
        None => {
            return Err(AttrError::ItemSyntax);
        },
    };
    let count = impl_item_count(&implementation);
    let mut methods: Vec<MethodSig> = Vec::new();
    let mut i: usize = 0;
    while i < count
        invariant
            i <= count,
            methods@.len() == impl_fns(implementation, i as int).len(),
            forall|k: int| 0 <= k < methods@.len() ==> sig_read(impl_fns(implementation, i as int)[k], #[trigger] methods@[k]),
        decreases count - i,
    {
        let ghost before = impl_fns(implementation, i as int);
        match impl_method_at(&implementation, i) {
            Some(method) => {
                methods.push(method_sig(method));
                proof {
                    assert(impl_fns(implementation, i + 1) == before.push(*method));
                }
            },
            None => {
                assert(impl_fns(implementation, i + 1) == before);
            },
        }
        i = i + 1;
    }
    assert(methods_read(item, methods@));
    match expand(attr_args.as_slice(), methods.as_slice()) {
        Ok((args, plans)) => Ok(Expansion { item: implementation, attr_args, methods, args, plans }),
        Err(e) => {
            assert(expand_outcome(attr_args@, methods@, Err(e)));
            Err(e)
        },
    }
}

} // verus!
