use stellar_upgrader_plugin::checked_upgrade_command;
use stellar_upgrader_plugin::generate_upgrade_command;
use stellar_upgrader_plugin::security_checks::constructor_check::ConstructorCheck;
use stellar_upgrader_plugin::security_checks::upgrade_function_check::UpgradeFunctionCheck;
use stellar_upgrader_plugin::security_checks::version_check::VersionCheck;
use stellar_upgrader_plugin::security_checks::{
    get_security_checks, run_all_checks, SecurityCheck, SecurityCheckContext,
};
use stellar_upgrader_plugin::UpgradeArgs;

fn create_test_args() -> UpgradeArgs {
    UpgradeArgs {
        id: "test_id".to_string(),
        wasm_hash: "test_hash".to_string(),
        source: "test_source".to_string(),
        network: "testnet".to_string(),
        rpc_url: None,
        rpc_header: None,
        network_passphrase: None,
        fee: 100,
        is_view: false,
        instructions: None,
        build_only: false,
        send: None,
        cost: false,
        force: false,
        contract_args: vec![],
    }
}

fn args_for_check_tests() -> UpgradeArgs {
    UpgradeArgs {
        id: "test".to_string(),
        wasm_hash: "test".to_string(),
        source: "test".to_string(),
        network: "test".to_string(),
        rpc_url: None,
        rpc_header: None,
        network_passphrase: None,
        fee: 100,
        is_view: false,
        instructions: None,
        build_only: false,
        send: None,
        cost: false,
        force: false,
        contract_args: vec![],
    }
}

const CLEAN_INTERFACE: &str = r#"
        #[soroban_sdk::contractargs(name = "Args")]
        #[soroban_sdk::contractclient(name = "Client")]
        pub trait Contract {
            fn handle_upgrade(env: soroban_sdk::Env);
            fn version(env: soroban_sdk::Env) -> u32;
            fn upgrade(env: soroban_sdk::Env, new_wasm_hash: soroban_sdk::BytesN<32>);
        }
        "#;

const CONSTRUCTOR_INTERFACE: &str = r#"
        #[soroban_sdk::contractargs(name = "Args")]
        #[soroban_sdk::contractclient(name = "Client")]
        pub trait Contract {
            fn __constructor(env: soroban_sdk::Env, admin: soroban_sdk::Address);
            fn handle_upgrade(env: soroban_sdk::Env);
            fn version(env: soroban_sdk::Env) -> u32;
            fn upgrade(env: soroban_sdk::Env, new_wasm_hash: soroban_sdk::BytesN<32>);
        }
        "#;

const NO_UPGRADE_INTERFACE: &str = r#"
        #[soroban_sdk::contractargs(name = "Args")]
        #[soroban_sdk::contractclient(name = "Client")]
        pub trait Contract {
            fn handle_upgrade(env: soroban_sdk::Env);
            fn version(env: soroban_sdk::Env) -> u32;
        }
        "#;

const CONSTRUCTOR_NO_UPGRADE_INTERFACE: &str = r#"
        #[soroban_sdk::contractargs(name = "Args")]
        #[soroban_sdk::contractclient(name = "Client")]
        pub trait Contract {
            fn __constructor(env: soroban_sdk::Env, admin: soroban_sdk::Address);
            fn handle_upgrade(env: soroban_sdk::Env);
            fn version(env: soroban_sdk::Env) -> u32;
        }
        "#;

const WRONG_SIGNATURE_INTERFACE: &str = r#"
        #[soroban_sdk::contractargs(name = "Args")]
        #[soroban_sdk::contractclient(name = "Client")]
        pub trait Contract {
            fn handle_upgrade(env: soroban_sdk::Env);
            fn version(env: soroban_sdk::Env) -> u32;
            fn upgrade(env: soroban_sdk::Env, hash: String); // Wrong parameter type
        }
        "#;

#[test]
fn test_constructor_check_pass() {
    let mut context = SecurityCheckContext::new();
    context.contract_interface = Some(CLEAN_INTERFACE.to_string());

    let check = ConstructorCheck::new();
    let result = check.run(&args_for_check_tests(), &mut context);

    assert!(result.is_ok());
}

#[test]
fn test_constructor_check_fail() {
    let mut context = SecurityCheckContext::new();
    context.contract_interface = Some(CONSTRUCTOR_INTERFACE.to_string());

    let check = ConstructorCheck::new();
    let result = check.run(&args_for_check_tests(), &mut context);

    assert!(result.is_err());
}

#[test]
fn test_upgrade_function_check_pass() {
    let mut context = SecurityCheckContext::new();
    context.contract_interface = Some(CLEAN_INTERFACE.to_string());

    let check = UpgradeFunctionCheck::new();
    let result = check.run(&args_for_check_tests(), &mut context);

    assert!(result.is_ok());
}

#[test]
fn test_upgrade_function_check_fail_no_function() {
    let mut context = SecurityCheckContext::new();
    context.contract_interface = Some(NO_UPGRADE_INTERFACE.to_string());

    let check = UpgradeFunctionCheck::new();
    let result = check.run(&args_for_check_tests(), &mut context);

    assert!(result.is_err());
}

#[test]
fn test_upgrade_function_check_fail_wrong_signature() {
    let mut context = SecurityCheckContext::new();
    context.contract_interface = Some(WRONG_SIGNATURE_INTERFACE.to_string());

    let check = UpgradeFunctionCheck::new();
    let result = check.run(&args_for_check_tests(), &mut context);

    assert!(result.is_err());
}

#[test]
fn test_all_checks_pass() {
    let mut context = SecurityCheckContext::new();
    // Define a contract interface with no constructor and with proper upgrade function
    context.contract_interface = Some(CLEAN_INTERFACE.to_string());

    let args = create_test_args();

    // Run constructor check
    let constructor_check = ConstructorCheck::new();
    let constructor_result = constructor_check.run(&args, &mut context);
    assert!(
        constructor_result.is_ok(),
        "Constructor check failed: {:?}",
        constructor_result
    );

    // Run upgrade function check
    let upgrade_check = UpgradeFunctionCheck::new();
    let upgrade_result = upgrade_check.run(&args, &mut context);
    assert!(
        upgrade_result.is_ok(),
        "Upgrade function check failed: {:?}",
        upgrade_result
    );
}

#[test]
fn test_constructor_check_fails() {
    let mut context = SecurityCheckContext::new();
    // Define a contract interface WITH constructor
    context.contract_interface = Some(CONSTRUCTOR_INTERFACE.to_string());

    let args = create_test_args();

    // Run constructor check - should fail
    let constructor_check = ConstructorCheck::new();
    let constructor_result = constructor_check.run(&args, &mut context);
    assert!(constructor_result.is_err());

    // Run upgrade function check - should pass
    let upgrade_check = UpgradeFunctionCheck::new();
    let upgrade_result = upgrade_check.run(&args, &mut context);
    assert!(upgrade_result.is_ok());
}

#[test]
fn test_upgrade_function_check_fails() {
    let mut context = SecurityCheckContext::new();
    // Define a contract interface without constructor but missing upgrade function
    context.contract_interface = Some(NO_UPGRADE_INTERFACE.to_string());

    let args = create_test_args();

    // Run constructor check - should pass
    let constructor_check = ConstructorCheck::new();
    let constructor_result = constructor_check.run(&args, &mut context);
    assert!(constructor_result.is_ok());

    // Run upgrade function check - should fail
    let upgrade_check = UpgradeFunctionCheck::new();
    let upgrade_result = upgrade_check.run(&args, &mut context);
    assert!(upgrade_result.is_err());
}

#[test]
fn test_both_checks_fail() {
    let mut context = SecurityCheckContext::new();
    // Define a contract interface WITH constructor and WITHOUT upgrade function
    context.contract_interface = Some(CONSTRUCTOR_NO_UPGRADE_INTERFACE.to_string());

    let args = create_test_args();

    // Run constructor check - should fail
    let constructor_check = ConstructorCheck::new();
    let constructor_result = constructor_check.run(&args, &mut context);
    assert!(constructor_result.is_err());

    // Run upgrade function check - should fail
    let upgrade_check = UpgradeFunctionCheck::new();
    let upgrade_result = upgrade_check.run(&args, &mut context);
    assert!(upgrade_result.is_err());
}

#[test]
fn test_registered_checks_order_and_names() {
    let checks = get_security_checks();
    assert_eq!(checks.len(), 2);
    assert_eq!(checks[0].name(), "Constructor Check");
    assert_eq!(checks[1].name(), "Upgrade Function Check");
}

#[test]
fn test_pipeline_short_circuits_on_first_failure() {
    // Both checks would fail; the pipeline must report the first one's reason.
    let mut context = SecurityCheckContext::new();
    context.contract_interface = Some(CONSTRUCTOR_NO_UPGRADE_INTERFACE.to_string());
    let err = run_all_checks(&create_test_args(), &mut context).unwrap_err();
    assert!(err.contains("__constructor"));
    assert!(!err.contains("upgrade function"));
}

#[test]
fn test_pipeline_missing_interface() {
    let mut context = SecurityCheckContext::new();
    let err = run_all_checks(&create_test_args(), &mut context).unwrap_err();
    assert_eq!(err, "Contract interface information not available");
}

#[test]
fn test_pipeline_all_pass() {
    let mut context = SecurityCheckContext::new();
    context.contract_interface = Some(CLEAN_INTERFACE.to_string());
    assert!(run_all_checks(&create_test_args(), &mut context).is_ok());
}

#[test]
fn test_checked_upgrade_command_after_failure() {
    // A failed pipeline yields the failing check's reason, never a command.
    let mut context = SecurityCheckContext::new();
    context.contract_interface = Some(CONSTRUCTOR_INTERFACE.to_string());
    let result = checked_upgrade_command(&create_test_args(), &mut context);
    let err = result.unwrap_err();
    assert!(err.contains("__constructor"));
}

#[test]
fn test_checked_upgrade_command_after_success() {
    let mut context = SecurityCheckContext::new();
    context.contract_interface = Some(CLEAN_INTERFACE.to_string());
    let args = create_test_args();
    let command = checked_upgrade_command(&args, &mut context).unwrap();
    assert_eq!(command, generate_upgrade_command(&args));
}

#[test]
fn test_version_check_not_registered() {
    // The monotonicity check exists beside the pipeline but is not part of
    // the default registered set, so a pipeline run never consults it.
    let _available = VersionCheck::new();
    let checks = get_security_checks();
    for check in checks.iter() {
        assert_ne!(check.name(), "Version Check");
    }
}
