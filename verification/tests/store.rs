use tinywasm::binary::module::Module;
use tinywasm::execution::store::Store;

const MEMORY: &str = "(module
  (memory 1)
  (data (i32.const 0) \"hello\")
  (data (i32.const 5) \"world\")
)";

#[test]
fn init_memory() {
    let wasm = wat::parse_str(MEMORY).unwrap();
    let module = Module::new(&wasm).unwrap();
    let store = Store::new(module).unwrap();
    assert_eq!(store.memories.len(), 1);
    assert_eq!(store.memories[0].data.len(), 65536);
    assert_eq!(&store.memories[0].data[0..5], b"hello");
    assert_eq!(&store.memories[0].data[5..10], b"world");
}
