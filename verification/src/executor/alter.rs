use vstd::prelude::*;
use crate::data::{copy_args, copy_expr, CustomFunction as Function, Expr, FunctionView, OperateFunctionArg};
use crate::error::{AlterError, Error, Result};
use crate::store::{GStore, GStoreMut};
use crate::trace;

verus! {

/// Whether the first `n` arguments have pairwise distinct names.
pub open spec fn names_distinct(args: Seq<OperateFunctionArg>, n: int) -> bool {
    forall|i: int, j: int| 0 <= i < j < n ==> #[trigger] args[i].name@ != #[trigger] args[j].name@
}

/// Whether argument `j` is the first whose name repeats the name of an earlier argument.
pub open spec fn is_first_repeat(args: Seq<OperateFunctionArg>, j: int) -> bool {
    &&& 0 <= j < args.len()
    &&& names_distinct(args, j)
    &&& exists|i: int| 0 <= i < j && #[trigger] args[i].name@ == args[j].name@
}

/// Whether `e` reports that argument `j` repeats an earlier name.
pub open spec fn is_duplicate_error(e: Error, args: Seq<OperateFunctionArg>, j: int) -> bool {
    e matches Error::Alter(AlterError::DuplicateArgName(name)) && name@ == args[j].name@
}

/// Whether no argument without a default follows one with a default.
pub open spec fn defaults_ordered(args: Seq<OperateFunctionArg>) -> bool {
    forall|i: int, j: int| 0 <= i < j < args.len() && (#[trigger] args[i].default) is Some ==> (#[trigger] args[j].default) is Some
}

/// Whether a function may be declared with these arguments.
pub open spec fn args_valid(args: Seq<OperateFunctionArg>) -> bool {
    names_distinct(args, args.len() as int) && defaults_ordered(args)
}

/// The function that `CREATE FUNCTION` stores.
pub open spec fn created_function(func_name: Seq<char>, args: Seq<OperateFunctionArg>, body: Expr) -> FunctionView {
    FunctionView { func_name, args, body }
}

/// Fails with `DuplicateArgName` for the first argument whose name was used before.
pub fn validate_arg_names(args: &[OperateFunctionArg]) -> (r: Result<()>)
    ensures
        r is Ok <==> names_distinct(args@, args@.len() as int),
        r matches Err(e) ==> exists|j: int| is_first_repeat(args@, j) && is_duplicate_error(e, args@, j),
{
    let mut j: usize = 0;
    while j < args.len()
        invariant
            j <= args.len(),
            names_distinct(args@, j as int),
        decreases args.len() - j,
    {
        let mut i: usize = 0;
        while i < j
            invariant
                i <= j < args.len(),
                names_distinct(args@, j as int),
                forall|k: int| 0 <= k < i ==> #[trigger] args@[k].name@ != args@[j as int].name@,
            decreases j - i,
        {
            if args[i].name == args[j].name {
                let e = Error::Alter(AlterError::DuplicateArgName(args[j].name.clone()));
                assert(is_first_repeat(args@, j as int));
                return Err(e);
            }
            i = i + 1;
        }
        j = j + 1;
    }
    Ok(())
}

/// Fails when an argument without a default follows one with a default.
pub fn validate_default_args(args: &[OperateFunctionArg]) -> (r: Result<()>)
    ensures
        r is Ok <==> defaults_ordered(args@),
        r is Err ==> r == Err::<(), Error>(Error::Alter(AlterError::NonDefaultArgumentFollowsDefaultArgument)),
{
    let mut seen_default = false;
    let mut j: usize = 0;
    while j < args.len()
        invariant
            j <= args.len(),
            forall|i: int, k: int| 0 <= i < k < j && (#[trigger] args@[i].default) is Some ==> (#[trigger] args@[k].default) is Some,
            seen_default <==> exists|i: int| 0 <= i < j && (#[trigger] args@[i].default) is Some,
        decreases args.len() - j,
    {
        if args[j].default.is_some() {
            seen_default = true;
        } else if seen_default {
            return Err(Error::Alter(AlterError::NonDefaultArgumentFollowsDefaultArgument));
        }
        j = j + 1;
    }
    Ok(())
}

/// The decision of `CREATE FUNCTION` once the storage has answered whether a function of
/// that name exists: it may proceed unless one exists and `or_replace` is false.
pub fn ensure_replaceable(func_name: &str, existing: Option<&Function>, or_replace: bool) -> (r: Result<()>)
    ensures
        r is Ok <==> existing is None || or_replace,
        r matches Err(e) ==> e matches Error::Alter(AlterError::FunctionAlreadyExists(name)) && name@ == func_name@,
{
    if existing.is_none() || or_replace {
        Ok(())
    } else {
        Err(Error::Alter(AlterError::FunctionAlreadyExists(func_name.to_owned())))
    }
}

/// The decision of `DROP FUNCTION` for one name once the storage has answered whether a
/// function of that name exists: without `if_exists`, a missing one is an error.
pub fn ensure_found(func_name: &String, existing: Option<&Function>, if_exists: bool) -> (r: Result<()>)
    ensures
        r is Ok <==> existing is Some || if_exists,
        r matches Err(e) ==> e matches Error::Alter(AlterError::FunctionNotFound(name)) && name@ == func_name@,
{
    if existing.is_none() && !if_exists {
        Err(Error::Alter(AlterError::FunctionNotFound(func_name.clone())))
    } else {
        Ok(())
    }
}

/// Whether `e` reports that a function named `func_name` already exists.
pub open spec fn is_already_exists(e: Error, func_name: Seq<char>) -> bool {
    e matches Error::Alter(AlterError::FunctionAlreadyExists(name)) && name@ == func_name
}

/// Whether `e` reports that no function is named `func_name`.
pub open spec fn is_not_found(e: Error, func_name: Seq<char>) -> bool {
    e matches Error::Alter(AlterError::FunctionNotFound(name)) && name@ == func_name
}

/// Whether no call on the functions of any storage of type `T` ever fails.
pub open spec fn function_calls_never_fail<T: GStore + GStoreMut>() -> bool {
    &&& forall|s: T, name: Seq<char>, e: Error| !#[trigger] s.fetch_function_fails_with(name, e)
    &&& forall|s: T, name: Seq<char>, e: Error| !#[trigger] s.delete_function_fails_with(name, e)
    &&& forall|s: T, f: FunctionView, e: Error| !#[trigger] s.insert_function_fails_with(f, e)
}

/// Whether `CREATE FUNCTION` on `before` may fail with `error` from the storage: looking up
/// or deleting the name on `before`, or storing `function` once the name was deleted.
pub open spec fn create_fails_in_storage<T: GStore + GStoreMut>(before: T, function: FunctionView, error: Error) -> bool {
    ||| before.fetch_function_fails_with(function.func_name, error)
    ||| before.delete_function_fails_with(function.func_name, error)
    ||| exists|s: T| #![trigger s.functions()]
        s.functions() == before.functions().remove(function.func_name) && s.insert_function_fails_with(function, error)
}

/// `CREATE [OR REPLACE] FUNCTION`: validates the arguments, then stores the function unless
/// one of that name exists and `or_replace` is false. The storage is asked whether the
/// name exists, then to delete the name and to store the function; an error of the
/// storage is returned as it came.
pub fn insert_function<T: GStore + GStoreMut>(
    storage: &mut T,
    func_name: &str,
    args: &[OperateFunctionArg],
    or_replace: bool,
    body: &Expr,
) -> (r: Result<()>)
    ensures
        !names_distinct(args@, args@.len() as int) ==> {
            &&& r matches Err(e) && exists|j: int| is_first_repeat(args@, j) && is_duplicate_error(e, args@, j)
            &&& *final(storage) == *old(storage)
        },
        names_distinct(args@, args@.len() as int) && !defaults_ordered(args@) ==> {
            &&& r == Err::<(), Error>(Error::Alter(AlterError::NonDefaultArgumentFollowsDefaultArgument))
            &&& *final(storage) == *old(storage)
        },
        args_valid(args@) && old(storage).functions().contains_key(func_name@) && !or_replace ==> {
            &&& r is Err
            &&& *final(storage) == *old(storage)
        },
        args_valid(args@) && old(storage).functions().contains_key(func_name@) && !or_replace
            && (forall|e: Error| !#[trigger] old(storage).fetch_function_fails_with(func_name@, e))
            ==> (r matches Err(e) && is_already_exists(e, func_name@)),
        args_valid(args@) ==> (r matches Err(e) ==> {
            ||| create_fails_in_storage(*old(storage), created_function(func_name@, args@, *body), e)
            ||| old(storage).functions().contains_key(func_name@) && !or_replace && is_already_exists(e, func_name@)
        }),
        args_valid(args@) && (or_replace || !old(storage).functions().contains_key(func_name@))
            && function_calls_never_fail::<T>() ==> r is Ok,
        r is Ok ==> {
            &&& args_valid(args@)
            &&& or_replace || !old(storage).functions().contains_key(func_name@)
            &&& final(storage).functions() == old(storage).functions().insert(
                func_name@,
                created_function(func_name@, args@, *body),
            )
        },
{
    validate_arg_names(args)?;
    validate_default_args(args)?;
    let ghost created = created_function(func_name@, args@, *body);

    let existing = trace::fetch_function(storage, func_name)?;
    match ensure_replaceable(func_name, existing, or_replace) {
        Ok(()) => {},
        Err(e) => {
            return Err(e);
        },
    }

    let ghost before = *storage;
    trace::delete_function(storage, func_name)?;
    let ghost deleted = *storage;
    let function = Function { func_name: func_name.to_owned(), args: copy_args(args), body: copy_expr(body) };
    assert(function@ == created);
    match trace::insert_function(storage, function) {
        Ok(()) => {},
        Err(e) => {
            assert(deleted.functions() == before.functions().remove(func_name@));
            assert(create_fails_in_storage(before, created, e));
            return Err(e);
        },
    }
    assert(storage.functions() =~= before.functions().insert(func_name@, created));
    Ok(())
}

/// The functions that remain after the first `k` names were deleted.
pub open spec fn deleted_upto(functions: Map<Seq<char>, FunctionView>, func_names: Seq<String>, k: int) -> Map<Seq<char>, FunctionView>
    decreases k,
{
    if k <= 0 {
        functions
    } else {
        deleted_upto(functions, func_names, k - 1).remove(func_names[k - 1]@)
    }
}

/// Whether, deleting the names in order, each one still exists when its turn comes.
pub open spec fn each_found(functions: Map<Seq<char>, FunctionView>, func_names: Seq<String>) -> bool {
    forall|k: int| 0 <= k < func_names.len() ==> #[trigger] deleted_upto(functions, func_names, k).contains_key(func_names[k]@)
}

/// Whether name `k` is the first that, deleting the names in order, no longer exists when
/// its turn comes.
pub open spec fn missing_at(functions: Map<Seq<char>, FunctionView>, func_names: Seq<String>, k: int) -> bool {
    &&& 0 <= k < func_names.len()
    &&& forall|m: int| 0 <= m < k ==> #[trigger] deleted_upto(functions, func_names, m).contains_key(func_names[m]@)
    &&& !deleted_upto(functions, func_names, k).contains_key(func_names[k]@)
}

/// Whether `DROP FUNCTION` of `func_names` on `before` may stop at name `k` with `error`,
/// leaving `after`: the storage failed looking up or deleting that name once the earlier
/// names were deleted; or, without `if_exists`, that name was the first missing one,
/// `error` is `FunctionNotFound` of it, and the earlier names are deleted.
pub open spec fn drop_fails_at<T: GStore + GStoreMut>(
    before: T,
    after: T,
    func_names: Seq<String>,
    if_exists: bool,
    k: int,
    error: Error,
) -> bool {
    &&& 0 <= k < func_names.len()
    &&& {
        ||| exists|s: T| #![trigger s.functions()] {
            &&& s.functions() == deleted_upto(before.functions(), func_names, k)
            &&& s.fetch_function_fails_with(func_names[k]@, error) || s.delete_function_fails_with(func_names[k]@, error)
        }
        ||| {
            &&& !if_exists
            &&& missing_at(before.functions(), func_names, k)
            &&& is_not_found(error, func_names[k]@)
            &&& after.functions() == deleted_upto(before.functions(), func_names, k)
        }
    }
}

/// Only one name is the first missing one.
proof fn lemma_missing_at_unique(functions: Map<Seq<char>, FunctionView>, func_names: Seq<String>, k1: int, k2: int)
    requires
        missing_at(functions, func_names, k1),
        missing_at(functions, func_names, k2),
    ensures
        k1 == k2,
{
    if k1 < k2 {
        assert(deleted_upto(functions, func_names, k1).contains_key(func_names[k1]@));
    } else if k2 < k1 {
        assert(deleted_upto(functions, func_names, k2).contains_key(func_names[k2]@));
    }
}

/// `DROP FUNCTION [IF EXISTS]`: deletes the functions in order; without `if_exists`, stops
/// with `FunctionNotFound` at the first name that does not exist (by then), the earlier
/// names deleted. An error of the storage is returned as it came.
pub fn delete_function<T: GStore + GStoreMut>(storage: &mut T, func_names: &[String], if_exists: bool) -> (r: Result<()>)
    ensures
        r is Ok ==> {
            &&& final(storage).functions() == deleted_upto(old(storage).functions(), func_names@, func_names@.len() as int)
            &&& !if_exists ==> each_found(old(storage).functions(), func_names@)
        },
        !if_exists && !each_found(old(storage).functions(), func_names@) ==> r is Err,
        func_names@.len() == 0 ==> r is Ok && *final(storage) == *old(storage),
        r matches Err(e) ==> exists|k: int| #[trigger] drop_fails_at(*old(storage), *final(storage), func_names@, if_exists, k, e),
        function_calls_never_fail::<T>() && (if_exists || each_found(old(storage).functions(), func_names@)) ==> r is Ok,
        forall|k: int| function_calls_never_fail::<T>() && !if_exists && #[trigger] missing_at(old(storage).functions(), func_names@, k) ==> {
            &&& r matches Err(e) && is_not_found(e, func_names@[k]@)
            &&& final(storage).functions() == deleted_upto(old(storage).functions(), func_names@, k)
        },
{
    let ghost start = storage.functions();
    let mut k: usize = 0;
    while k < func_names.len()
        invariant
            k <= func_names.len(),
            start == old(storage).functions(),
            storage.functions() == deleted_upto(start, func_names@, k as int),
            k == 0 ==> *storage == *old(storage),
            !if_exists ==> forall|m: int| 0 <= m < k ==> #[trigger] deleted_upto(start, func_names@, m).contains_key(func_names@[m]@),
        decreases func_names.len() - k,
    {
        let func_name = &func_names[k];
        let ghost here = *storage;
        let function = match trace::fetch_function(storage, func_name.as_str()) {
            Ok(f) => f,
            Err(e) => {
                proof {
                    assert(here.functions() == deleted_upto(start, func_names@, k as int));
                    assert(drop_fails_at(*old(storage), *storage, func_names@, if_exists, k as int, e));
                }
                return Err(e);
            },
        };
        match ensure_found(func_name, function, if_exists) {
            Ok(()) => {},
            Err(e) => {
                proof {
                    assert(missing_at(start, func_names@, k as int));
                    assert(drop_fails_at(*old(storage), *storage, func_names@, if_exists, k as int, e));
                    assert(!each_found(start, func_names@)) by {
                        assert(!deleted_upto(start, func_names@, k as int).contains_key(func_names@[k as int]@));
                    }
                    assert forall|j: int| #[trigger] missing_at(start, func_names@, j) implies j == k by {
                        lemma_missing_at_unique(start, func_names@, j, k as int);
                    }
                }
                return Err(e);
            },
        }
        match trace::delete_function(storage, func_name.as_str()) {
            Ok(()) => {},
            Err(e) => {
                proof {
                    assert(here.functions() == deleted_upto(start, func_names@, k as int));
                    assert(drop_fails_at(*old(storage), *storage, func_names@, if_exists, k as int, e));
                }
                return Err(e);
            },
        }
        k = k + 1;
    }
    Ok(())
}

/// `CREATE OR REPLACE FUNCTION` is idempotent: storing the same function a second time
/// leaves the functions as the first call left them.
pub proof fn lemma_create_or_replace_idempotent(
    functions: Map<Seq<char>, FunctionView>,
    func_name: Seq<char>,
    args: Seq<OperateFunctionArg>,
    body: Expr,
)
    ensures
        functions.insert(func_name, created_function(func_name, args, body)).insert(func_name, created_function(func_name, args, body))
            == functions.insert(func_name, created_function(func_name, args, body)),
{
    let created = created_function(func_name, args, body);
    assert(functions.insert(func_name, created).insert(func_name, created) =~= functions.insert(func_name, created));
}

/// Creating a function and then dropping it by name (without `IF EXISTS`) finds it, and
/// leaves the other functions as they were.
pub proof fn lemma_create_then_drop(functions: Map<Seq<char>, FunctionView>, func_name: String, function: FunctionView)
    ensures
        each_found(functions.insert(func_name@, function), seq![func_name]),
        deleted_upto(functions.insert(func_name@, function), seq![func_name], 1) == functions.remove(func_name@),
{
    let created = functions.insert(func_name@, function);
    assert(deleted_upto(created, seq![func_name], 0) == created);
    assert(deleted_upto(created, seq![func_name], 1) == created.remove(func_name@));
    assert(created.remove(func_name@) =~= functions.remove(func_name@));
}

/// Dropping names of which none exists, with `IF EXISTS`, changes nothing.
pub proof fn lemma_drop_absent_is_noop(functions: Map<Seq<char>, FunctionView>, func_names: Seq<String>, k: int)
    requires
        0 <= k <= func_names.len(),
        forall|i: int| 0 <= i < func_names.len() ==> !functions.contains_key(#[trigger] func_names[i]@),
    ensures
        deleted_upto(functions, func_names, k) == functions,
    decreases k,
{
    if k > 0 {
        lemma_drop_absent_is_noop(functions, func_names, k - 1);
        assert(functions.remove(func_names[k - 1]@) =~= functions);
    }
}

} // verus!
