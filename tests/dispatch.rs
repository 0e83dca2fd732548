use casper_api::{
    dispatch, get_named_arg, register_entrypoint, register_func, ApiError, ArgBag, CLType,
    Codec, EntryPoint, ExecutionContext,
};

type Handle = Box<dyn Fn(&ArgBag) -> Result<bool, ApiError>>;

fn bag(pairs: &[(&str, Vec<u8>)]) -> ArgBag {
    let mut b = ArgBag::new();
    for (name, bytes) in pairs {
        b.insert(name, bytes.clone());
    }
    b
}

#[test]
fn dispatch_argument_isolation() {
    let mut ctx: ExecutionContext<Handle> = ExecutionContext::new();
    register_func(&mut ctx, "A", Box::new(|args: &ArgBag| get_named_arg::<bool>(args, "x")));
    register_func(&mut ctx, "B", Box::new(|args: &ArgBag| get_named_arg::<bool>(args, "x")));
    let bytes_1 = true.encode().unwrap();
    let a = dispatch(&mut ctx, "A", bag(&[("x", bytes_1)]));
    assert_eq!(a, Ok(Ok(true)));
    let b = dispatch(&mut ctx, "B", bag(&[("y", false.encode().unwrap())]));
    assert_eq!(b, Ok(Err(ApiError::MissingArgument)));
}

#[test]
fn unregistered_dispatch_is_a_contract_violation() {
    let mut ctx: ExecutionContext<Handle> = ExecutionContext::new();
    register_func(&mut ctx, "known", Box::new(|_args: &ArgBag| Ok(true)));
    let r = dispatch(&mut ctx, "unknown", bag(&[]));
    assert_eq!(r, Err(ApiError::ContractViolation));
}

#[test]
fn reregistration_replaces_handle() {
    let mut ctx: ExecutionContext<Handle> = ExecutionContext::new();
    register_func(&mut ctx, "f", Box::new(|_args: &ArgBag| Ok(false)));
    register_func(&mut ctx, "f", Box::new(|_args: &ArgBag| Ok(true)));
    assert_eq!(dispatch(&mut ctx, "f", ArgBag::new()), Ok(Ok(true)));
}

#[test]
fn register_entrypoint_registers_under_its_name() {
    let mut ctx: ExecutionContext<Handle> = ExecutionContext::new();
    let params = [("flag", CLType::Bool)];
    let entry = EntryPoint {
        name: "negate",
        params: &params,
        func: Box::new(|args: &ArgBag| get_named_arg::<bool>(args, "flag").map(|b| !b)) as Handle,
    };
    register_entrypoint(&mut ctx, entry);
    let r = dispatch(&mut ctx, "negate", bag(&[("flag", vec![0])]));
    assert_eq!(r, Ok(Ok(true)));
}

#[test]
fn get_named_arg_missing_and_malformed() {
    let args = bag(&[("x", vec![5]), ("s", vec![1, 0, 0, 0, b'q'])]);
    assert_eq!(get_named_arg::<bool>(&args, "nope"), Err(ApiError::MissingArgument));
    assert_eq!(get_named_arg::<bool>(&args, "x"), Err(ApiError::Decode));
    assert_eq!(get_named_arg::<String>(&args, "s"), Ok(String::from("q")));
}

#[test]
fn arg_bag_insert_replaces() {
    let mut args = ArgBag::new();
    assert!(args.get("k").is_none());
    args.insert("k", vec![1]);
    args.insert("j", vec![2]);
    args.insert("k", vec![3]);
    assert_eq!(args.get("k"), Some(&vec![3]));
    assert_eq!(args.get("j"), Some(&vec![2]));
}
