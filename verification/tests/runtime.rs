use tinywasm::execution::import::ImportFunc;
use tinywasm::execution::runtime::Runtime;
use tinywasm::execution::store::Store;
use tinywasm::execution::value::Value;
use tinywasm::execution::wasi::FileSink;

const FUNC_ADD: &str = "(module
  (func (export \"add\") (param i32 i32) (result i32)
    (local.get 0)
    (local.get 1)
    i32.add
  )
)";

const FUNC_CALL: &str = "(module
  (func (export \"call_doubler\") (param i32) (result i32)
    (local.get 0)
    (call $double)
  )
  (func $double (param i32) (result i32)
    (local.get 0)
    (local.get 0)
    i32.add
  )
)";

const IMPORT: &str = "(module
  (func $add (import \"env\" \"add\") (param i32) (result i32))
  (func (export \"call_add\") (param i32) (result i32)
    (local.get 0)
    (call $add)
  )
)";

const I32_CONST: &str = "(module
  (func (export \"i32_const\") (result i32)
    (i32.const 42)
  )
)";

const LOCAL_SET: &str = "(module
  (func (export \"local_set\") (result i32)
    (local $x i32)
    (local.set $x (i32.const 42))
    (local.get 0)
  )
)";

const I32_STORE: &str = "(module
  (memory 1)
  (func (export \"i32_store\")
    (i32.const 0)
    (i32.const 42)
    (i32.store)
  )
)";

const FUNC_SUB: &str = "(module
  (func (export \"sub\") (param i32 i32) (result i32)
    (local.get 0)
    (local.get 1)
    i32.sub
  )
)";

const FUNC_LTS: &str = "(module
  (func (export \"lts\") (param i32 i32) (result i32)
    (local.get 0)
    (local.get 1)
    i32.lt_s
  )
)";

const FIB: &str = "(module
  (func $fib (export \"fib\") (param $n i32) (result i32)
    (if
      (i32.lt_s (local.get $n) (i32.const 2))
      (then (return (i32.const 1)))
    )
    (return
      (i32.add
        (call $fib (i32.sub (local.get $n) (i32.const 2)))
        (call $fib (i32.sub (local.get $n) (i32.const 1)))
      )
    )
  )
)";

struct HostFn(Box<dyn FnMut(&mut Store, Vec<Value>) -> Result<Option<Value>, String>>);

impl ImportFunc for HostFn {
    fn call(&mut self, store: &mut Store, args: Vec<Value>) -> Result<Option<Value>, String> {
        (self.0)(store, args)
    }
}

struct NoFile;

impl FileSink for NoFile {
    fn write(&mut self, _bytes: &[u8]) -> Result<usize, String> {
        Err("closed".to_string())
    }
}

type Rt = Runtime<HostFn, NoFile>;

#[test]
fn execute_i32_add() {
    let wasm = wat::parse_str(FUNC_ADD).unwrap();
    let mut runtime = Rt::instantiate(&wasm).unwrap();
    let tests = vec![(2, 3, 5), (10, 5, 15), (1, 1, 2)];

    for (left, right, want) in tests {
        let args = vec![Value::I32(left), Value::I32(right)];
        let result = runtime.call("add", args).unwrap();
        assert_eq!(result, Some(Value::I32(want)));
    }
}

#[test]
fn not_found_export_function() {
    let wasm = wat::parse_str(FUNC_ADD).unwrap();
    let mut runtime = Rt::instantiate(&wasm).unwrap();
    let result = runtime.call("fooooo", vec![]);
    assert!(result.is_err());
}

#[test]
fn func_call() {
    let wasm = wat::parse_str(FUNC_CALL).unwrap();
    let mut runtime = Rt::instantiate(&wasm).unwrap();
    let tests = vec![(2, 4), (10, 20), (1, 2)];

    for (arg, want) in tests {
        let args = vec![Value::I32(arg)];
        let result = runtime.call("call_doubler", args).unwrap();
        assert_eq!(result, Some(Value::I32(want)));
    }
}

#[test]
fn call_imported_func() {
    let wasm = wat::parse_str(IMPORT).unwrap();
    let mut runtime = Rt::instantiate(&wasm).unwrap();
    runtime
        .add_import(
            "env",
            "add",
            HostFn(Box::new(|_, args| {
                let arg = args[0];
                Ok(Some(arg + arg))
            })),
        )
        .unwrap();
    let tests = vec![(2, 4), (10, 20), (1, 2)];

    for (arg, want) in tests {
        let args = vec![Value::I32(arg)];
        let result = runtime.call("call_add", args).unwrap();
        assert_eq!(result, Some(Value::I32(want)));
    }
}

#[test]
fn not_found_imported_func() {
    let wasm = wat::parse_str(IMPORT).unwrap();
    let mut runtime = Rt::instantiate(&wasm).unwrap();
    runtime
        .add_import("env", "fooooo", HostFn(Box::new(|_, _| Ok(None))))
        .unwrap();
    let result = runtime.call("call_add", vec![Value::I32(1)]);
    assert!(result.is_err());
}

#[test]
fn i32_const() {
    let wasm = wat::parse_str(I32_CONST).unwrap();
    let mut runtime = Rt::instantiate(&wasm).unwrap();
    let result = runtime.call("i32_const", vec![]).unwrap();
    assert_eq!(result, Some(Value::I32(42)));
}

#[test]
fn local_set() {
    let wasm = wat::parse_str(LOCAL_SET).unwrap();
    let mut runtime = Rt::instantiate(&wasm).unwrap();
    let result = runtime.call("local_set", vec![]).unwrap();
    assert_eq!(result, Some(Value::I32(42)));
}

#[test]
fn i32_store() {
    let wasm = wat::parse_str(I32_STORE).unwrap();
    let mut runtime = Rt::instantiate(&wasm).unwrap();
    runtime.call("i32_store", vec![]).unwrap();
    let memory = &runtime.store.memories[0].data;
    assert_eq!(memory[0], 42);
}

#[test]
fn i32_sub() {
    let wasm = wat::parse_str(FUNC_SUB).unwrap();
    let mut runtime = Rt::instantiate(&wasm).unwrap();
    let result = runtime
        .call("sub", vec![Value::I32(10), Value::I32(5)])
        .unwrap();
    assert_eq!(result, Some(Value::I32(5)));
}

#[test]
fn i32_lts() {
    let wasm = wat::parse_str(FUNC_LTS).unwrap();
    let mut runtime = Rt::instantiate(&wasm).unwrap();
    let result = runtime
        .call("lts", vec![Value::I32(10), Value::I32(5)])
        .unwrap();
    assert_eq!(result, Some(Value::I32(0)));
}

#[test]
fn fib() {
    let wasm = wat::parse_str(FIB).unwrap();
    let mut runtime = Rt::instantiate(&wasm).unwrap();
    let tests = vec![
        (1, 1),
        (2, 2),
        (3, 3),
        (4, 5),
        (5, 8),
        (6, 13),
        (7, 21),
        (8, 34),
        (9, 55),
        (10, 89),
    ];

    for (arg, want) in tests {
        let args = vec![Value::I32(arg)];
        let result = runtime.call("fib", args).unwrap();
        assert_eq!(result, Some(Value::I32(want)));
    }
}
