use daft_kernels::catalog::PyCatalog;
use daft_kernels::dtype::DataType;
use daft_kernels::registry::{
    HostObjectRef, ResourceRequest, SQLFunctions, SQLModule, SQLModulePython,
};

#[test]
fn registering_a_udf_lists_it() {
    let mut funcs = SQLFunctions::new();
    funcs.register_sql_udf(
        "my_udf",
        HostObjectRef { id: 7 },
        DataType::Int64,
        HostObjectRef { id: 8 },
        None,
        Some(128),
        None,
    );
    let stubs = funcs.list_sql_functions();
    assert_eq!(stubs.len(), 1);
    assert_eq!(stubs[0].name().as_str(), "my_udf");
    assert_eq!(stubs[0].docstring().as_str(), "");
    assert!(stubs[0].arg_names().is_empty());
}

#[test]
fn reregistration_replaces_in_place() {
    let mut funcs = SQLFunctions::new();
    let rr = ResourceRequest {
        num_cpus_milli: Some(1500),
        num_gpus_milli: None,
        memory_bytes: Some(1 << 20),
    };
    funcs.register_sql_udf(
        "first",
        HostObjectRef { id: 1 },
        DataType::Int64,
        HostObjectRef { id: 2 },
        Some(rr),
        None,
        Some(4),
    );
    funcs.register_sql_udf(
        "second",
        HostObjectRef { id: 3 },
        DataType::Float64,
        HostObjectRef { id: 4 },
        None,
        None,
        None,
    );
    funcs.register_sql_udf(
        "first",
        HostObjectRef { id: 5 },
        DataType::Boolean,
        HostObjectRef { id: 6 },
        None,
        None,
        None,
    );
    let stubs = funcs.list_sql_functions();
    assert_eq!(stubs.len(), 2);
    assert_eq!(stubs[0].name().as_str(), "first");
    assert_eq!(stubs[1].name().as_str(), "second");
    let first = funcs.map.get(&String::from("first")).unwrap();
    assert_eq!(first.inner, HostObjectRef { id: 5 });
    assert_eq!(first.return_dtype, DataType::Boolean);
    let second = funcs.map.get(&String::from("second")).unwrap();
    assert_eq!(second.return_dtype, DataType::Float64);
    assert_eq!(second.resource_request, None);
}

#[test]
fn the_host_module_registers_nothing() {
    let mut funcs = SQLFunctions::new();
    SQLModulePython::register(&mut funcs);
    assert_eq!(funcs.list_sql_functions().len(), 0);
}

#[test]
fn catalog_registration_and_lookup() {
    let mut catalog = PyCatalog::new();
    catalog.register_table("orders", 11);
    catalog.register_table("users", 22);
    catalog.register_table("orders", 33);
    assert_eq!(catalog.catalog.get_table(&String::from("orders")), Some(&33));
    assert_eq!(catalog.catalog.get_table(&String::from("users")), Some(&22));
    assert_eq!(catalog.catalog.get_table(&String::from("absent")), None);
    assert_eq!(catalog.catalog.tables.len(), 2);
}

#[test]
fn copy_from_prefers_the_other_catalog() {
    let mut ours = PyCatalog::new();
    ours.register_table("shared", 1);
    ours.register_table("only_ours", 2);
    let mut theirs = PyCatalog::new();
    theirs.register_table("shared", 10);
    theirs.register_table("only_theirs", 20);
    ours.copy_from(&theirs);
    assert_eq!(ours.catalog.get_table(&String::from("shared")), Some(&10));
    assert_eq!(ours.catalog.get_table(&String::from("only_ours")), Some(&2));
    assert_eq!(
        ours.catalog.get_table(&String::from("only_theirs")),
        Some(&20)
    );
}

#[test]
fn default_catalog_is_empty() {
    let catalog = PyCatalog::default();
    assert_eq!(catalog.catalog.tables.len(), 0);
    assert_eq!(catalog.catalog.get_table(&String::from("any")), None);
}
