use trinci_cli::batch::{confirmed, entry_path, next_step, stop_after_failure, transaction_of, Step};
use trinci_cli::cheats::{
    adv_asset_balance_tx, adv_asset_init_tx, adv_asset_mint_tx, asset_init_tx, contract_is_open,
    create_service_init_tx, is_loaded, max_units_of, parse_asset, parse_cheat,
    register_contract_tx, transfer_asset_tx, units_of, Arg, ArgValue, Args, AssetCommand, Call,
    CheatCommand,
};
use trinci_cli::common::{
    account_keypairs, build_transaction, clip_note, create_keypair, default_keypair, nonce_of,
    printable, signing_input, transaction_with_nonce, KeyPair, INITIAL_NETWORK_NAME,
};
use trinci_cli::config::{Args as CliArgs, Config, Mode, Transport, DEFAULT_PORT};
use trinci_cli::console::{add_count, parse_command, read_height, Command};
use trinci_cli::hexcode::encode;
use trinci_cli::message::{Message, Ticket, Transaction};
use trinci_cli::stress::{
    payment_of, random_payment, settle_secs, stress_plan, Pacer, Payment, LIGHT_BURST,
    LIGHT_PAUSE_SECS,
};
use trinci_cli::text::{
    chars_are, find_char, from_chars, has_word, lowered, read_decimal, read_unsigned, to_chars,
};
use trinci_cli::utils::{key_file_kind, read_yes_no, KeyFileKind};

fn no_args() -> CliArgs {
    CliArgs {
        verbose: false,
        batch: None,
        stress: None,
        network: None,
        channel: None,
        host: None,
        port: None,
        path: None,
        keyfile: None,
    }
}

fn s(text: &str) -> Option<String> {
    Some(text.to_string())
}

#[test]
fn default_settings() {
    let c = Config::default();
    assert!(!c.verbose);
    assert_eq!(c.network, "skynet");
    assert_eq!(c.host, "localhost");
    assert_eq!(c.channel, "http");
    assert_eq!(c.port, 8000);
    assert_eq!(DEFAULT_PORT, 8000);
    assert_eq!(c.path, "api/v1");
    assert_eq!((c.keyfile, c.stress, c.batch), (None, None, None));
    assert_eq!(Config::from_values(no_args()), Config::default());
}

#[test]
fn given_options_replace_the_defaults() {
    let c = Config::from_values(CliArgs {
        verbose: true,
        batch: s("txs/batch.toml"),
        stress: s("4"),
        network: s("testnet"),
        channel: s("bridge"),
        host: s("10.0.0.1"),
        port: s("9000"),
        path: s("v2"),
        keyfile: s("keys/ecdsa.der"),
    });
    assert_eq!(
        c,
        Config {
            verbose: true,
            network: "testnet".to_string(),
            host: "10.0.0.1".to_string(),
            channel: "bridge".to_string(),
            port: 9000,
            path: "v2".to_string(),
            keyfile: s("keys/ecdsa.der"),
            stress: Some(4),
            batch: s("txs/batch.toml"),
        }
    );
}

#[test]
fn numbers_that_do_not_parse_fall_back() {
    let port = |text: &str| Config::from_values(CliArgs { port: s(text), ..no_args() }).port;
    assert_eq!(port("65535"), 65535);
    assert_eq!(port("65536"), 8000);
    assert_eq!(port("+80"), 80);
    assert_eq!(port("0080"), 80);
    assert_eq!(port(""), 8000);
    assert_eq!(port("+"), 8000);
    assert_eq!(port("-1"), 8000);
    assert_eq!(port("80 "), 8000);
    assert_eq!(port("8o"), 8000);
    let stress = |text: &str| Config::from_values(CliArgs { stress: s(text), ..no_args() }).stress;
    assert_eq!(stress("0"), Some(0));
    assert_eq!(stress("255"), Some(255));
    assert_eq!(stress("256"), Some(1));
    assert_eq!(stress("many"), Some(1));
}

#[test]
fn url_is_made_of_host_port_and_path() {
    assert_eq!(Config::default().url(), "http://localhost:8000/api/v1");
    let c = Config::from_values(CliArgs { host: s("node"), port: s("1"), path: s(""), ..no_args() });
    assert_eq!(c.url(), "http://node:1/");
}

#[test]
fn transport_is_chosen_by_the_name_of_the_channel() {
    let with = |name: &str| Config::from_values(CliArgs { channel: s(name), ..no_args() });
    assert_eq!(with("stdio").transport(), Some(Transport::Stdio));
    assert_eq!(with("file").transport(), Some(Transport::File));
    assert_eq!(
        with("http").transport(),
        Some(Transport::Http { url: "http://localhost:8000/api/v1".to_string() })
    );
    assert_eq!(
        with("bridge").transport(),
        Some(Transport::Bridge { host: "localhost".to_string(), port: 8000 })
    );
    assert_eq!(with("HTTP").transport(), None);
    assert_eq!(with("").transport(), None);
    assert_eq!(with("carrier-pigeon").transport(), None);
}

#[test]
fn batch_comes_before_stress_and_stress_before_the_console() {
    let both = Config::from_values(CliArgs { batch: s("b.toml"), stress: s("2"), ..no_args() });
    assert_eq!(both.mode(), Mode::Batch("b.toml".to_string()));
    let stress = Config::from_values(CliArgs { stress: s("2"), ..no_args() });
    assert_eq!(stress.mode(), Mode::Stress(2));
    assert_eq!(Config::default().mode(), Mode::Console);
}

#[test]
fn commands_without_argument() {
    assert_eq!(parse_command("help"), Command::Help);
    assert_eq!(parse_command("quit"), Command::Quit);
    assert_eq!(parse_command("put-tx"), Command::PutTx);
    assert_eq!(parse_command("put-bulk-tx"), Command::PutBulkTx);
    assert_eq!(parse_command("get-txs"), Command::GetTxs);
    assert_eq!(parse_command("cheats"), Command::Cheats);
    assert_eq!(parse_command("help me please"), Command::Help);
    assert_eq!(parse_command(""), Command::NotFound);
    assert_eq!(parse_command(" help"), Command::NotFound);
    assert_eq!(parse_command("HELP"), Command::NotFound);
    assert_eq!(parse_command("helpme"), Command::NotFound);
}

#[test]
fn commands_with_a_ticket() {
    let hex = "aa".repeat(32);
    let t = Ticket::new([0xaa; 32]);
    assert_eq!(parse_command(&format!("get-tx {}", hex)), Command::GetTx(t));
    assert_eq!(parse_command(&format!("get-rx {}", hex.to_uppercase())), Command::GetRx(t));
    assert_eq!(parse_command(&format!("get-tx {} more", hex)), Command::GetTx(t));
    assert_eq!(parse_command("get-tx"), Command::BadTicket);
    assert_eq!(parse_command("get-tx "), Command::BadTicket);
    assert_eq!(parse_command(&format!("get-tx  {}", hex)), Command::BadTicket);
    assert_eq!(parse_command("get-rx aabb"), Command::BadTicket);
    assert_eq!(parse_command(&format!("get-rx {}zz", &hex[2..])), Command::BadTicket);
}

#[test]
fn commands_with_other_arguments() {
    assert_eq!(parse_command("get-acc QmAcc:key"), Command::GetAccount("QmAcc:key".to_string()));
    assert_eq!(parse_command("get-acc "), Command::GetAccount(String::new()));
    assert_eq!(parse_command("get-acc"), Command::BadAccount);
    assert_eq!(parse_command("get-blk 12"), Command::GetBlock(12));
    assert_eq!(parse_command("get-blk max"), Command::GetBlock(u64::MAX));
    assert_eq!(parse_command("get-blk MaX"), Command::GetBlock(u64::MAX));
    assert_eq!(parse_command("get-blk 18446744073709551615"), Command::GetBlock(u64::MAX));
    assert_eq!(parse_command("get-blk 18446744073709551616"), Command::BadHeight);
    assert_eq!(parse_command("get-blk -1"), Command::BadHeight);
    assert_eq!(parse_command("get-blk"), Command::BadHeight);
    assert_eq!(parse_command("export-txs out.bin"), Command::ExportTxs("out.bin".to_string()));
    assert_eq!(parse_command("import-txs in.bin x"), Command::ImportTxs("in.bin".to_string()));
    assert_eq!(parse_command("export-txs"), Command::BadFile);
    assert_eq!(parse_command("import-txs"), Command::BadFile);
}

#[test]
fn heights_and_counts() {
    assert_eq!(read_height(&to_chars("MAX")), Some(u64::MAX));
    assert_eq!(read_height(&to_chars("+7")), Some(7));
    assert_eq!(read_height(&to_chars("maximum")), None);
    assert_eq!(add_count(3, 4), 7);
    assert_eq!(add_count(u64::MAX - 1, 1), u64::MAX);
    assert_eq!(add_count(u64::MAX - 1, 5), u64::MAX);
}

#[test]
fn shortcut_menus() {
    assert_eq!(parse_cheat("register"), CheatCommand::Register);
    assert_eq!(parse_cheat("subscribe"), CheatCommand::Subscribe);
    assert_eq!(parse_cheat("bootstrap"), CheatCommand::Bootstrap);
    assert_eq!(parse_cheat("adv-asset"), CheatCommand::AdvancedAsset);
    assert_eq!(parse_cheat("help"), CheatCommand::Help);
    assert_eq!(parse_cheat("quit"), CheatCommand::Quit);
    assert_eq!(parse_cheat("register now"), CheatCommand::NotFound);
    assert_eq!(parse_asset("init"), AssetCommand::Init);
    assert_eq!(parse_asset("mint"), AssetCommand::Mint);
    assert_eq!(parse_asset("balance"), AssetCommand::Balance);
    assert_eq!(parse_asset("transfer"), AssetCommand::Transfer);
    assert_eq!(parse_asset("help"), AssetCommand::Help);
    assert_eq!(parse_asset("quit"), AssetCommand::Quit);
    assert_eq!(parse_asset(""), AssetCommand::NotFound);
}

fn text(name: &str, value: &str) -> Arg {
    Arg { name: name.to_string(), value: ArgValue::Text(value.to_string()) }
}

fn number(name: &str, value: u64) -> Arg {
    Arg { name: name.to_string(), value: ArgValue::Number(value) }
}

#[test]
fn calls_of_the_contracts() {
    let t = Ticket::new([1; 32]);
    assert_eq!(
        transfer_asset_tx("QmFrom".to_string(), "QmAsset".to_string(), "QmTo".to_string(), 5),
        Call {
            account: "QmAsset".to_string(),
            contract: None,
            method: "transfer".to_string(),
            args: Args::Named(vec![text("from", "QmFrom"), text("to", "QmTo"), number("units", 5)]),
            fuel_limit: 1_000_000,
        }
    );
    assert_eq!(
        register_contract_tx(
            "TRINCI".to_string(),
            Some(t),
            "asset".to_string(),
            "1.0".to_string(),
            "an asset".to_string(),
            "http://x".to_string(),
            vec![0, 97, 115, 109],
            1000,
        ),
        Call {
            account: "TRINCI".to_string(),
            contract: Some(t),
            method: "contract_registration".to_string(),
            args: Args::Named(vec![
                text("name", "asset"),
                text("version", "1.0"),
                text("description", "an asset"),
                text("url", "http://x"),
                Arg { name: "bin".to_string(), value: ArgValue::Bytes(vec![0, 97, 115, 109]) },
            ]),
            fuel_limit: 1000,
        }
    );
    assert_eq!(
        create_service_init_tx("TRINCI".to_string(), t, vec![1, 2]),
        Call {
            account: "TRINCI".to_string(),
            contract: Some(t),
            method: "init".to_string(),
            args: Args::Raw(vec![1, 2]),
            fuel_limit: 100_000,
        }
    );
    assert_eq!(
        asset_init_tx("A".to_string(), None, "n".to_string(), "d".to_string(), "u".to_string(), 9),
        Call {
            account: "A".to_string(),
            contract: None,
            method: "init".to_string(),
            args: Args::Named(vec![
                text("name", "n"),
                Arg { name: "authorized".to_string(), value: ArgValue::Texts(vec![]) },
                text("description", "d"),
                text("url", "u"),
                number("max_units", 9),
            ]),
            fuel_limit: 1_000_000,
        }
    );
    assert_eq!(
        adv_asset_init_tx(
            "A".to_string(),
            Some(t),
            "n".to_string(),
            "d".to_string(),
            "u".to_string(),
            u64::MAX,
            (0, 100),
            0,
            String::new(),
        ),
        Call {
            account: "A".to_string(),
            contract: Some(t),
            method: "init".to_string(),
            args: Args::Named(vec![
                text("name", "n"),
                text("description", "d"),
                text("url", "u"),
                number("max_units", u64::MAX),
                Arg { name: "fees".to_string(), value: ArgValue::Numbers(vec![0, 100]) },
                number("fixed_fees", 0),
                text("fees_account", ""),
            ]),
            fuel_limit: 1_000_000,
        }
    );
    assert_eq!(
        adv_asset_mint_tx("A".to_string(), None, "QmTo".to_string(), 10_000),
        Call {
            account: "A".to_string(),
            contract: None,
            method: "mint".to_string(),
            args: Args::Named(vec![text("to", "QmTo"), number("units", 10_000)]),
            fuel_limit: 1_000_000,
        }
    );
    assert_eq!(
        adv_asset_balance_tx("A".to_string(), None, Some("QmWho".to_string())).args,
        Args::Named(vec![text("account", "QmWho")])
    );
    let own = adv_asset_balance_tx("A".to_string(), Some(t), None);
    assert_eq!(own.args, Args::Raw(vec![]));
    assert_eq!(own.method, "balance");
    assert_eq!(own.contract, Some(t));
}

#[test]
fn amounts_typed_in() {
    assert_eq!(max_units_of("max"), u64::MAX);
    assert_eq!(max_units_of("MAX"), u64::MAX);
    assert_eq!(max_units_of("1000"), 1000);
    assert_eq!(max_units_of("lots"), 0);
    assert_eq!(units_of("12"), 12);
    assert_eq!(units_of(""), 0);
    assert_eq!(units_of("max"), 0);
    assert!(contract_is_open(&Ticket::new([0; 32])));
    assert!(!contract_is_open(&Ticket::new([1; 32])));
    assert!(is_loaded("tx1.bin"));
    assert!(!is_loaded("_tx1.bin"));
    assert!(is_loaded(""));
}

#[test]
fn answers_to_questions() {
    for yes in ["", "y", "Y", "yes", "YES", "yEs"] {
        assert!(confirmed(yes), "{:?}", yes);
    }
    for no in ["n", "no", "yess", " y", "ye", "si"] {
        assert!(!confirmed(no), "{:?}", no);
    }
    assert_eq!(next_step(false, "n"), Step::Submit);
    assert_eq!(next_step(true, "n"), Step::Skip);
    assert_eq!(next_step(true, ""), Step::Submit);
    assert!(stop_after_failure("yes"));
    assert!(!stop_after_failure("n"));
    assert_eq!(read_yes_no("Y"), Some(true));
    assert_eq!(read_yes_no("y"), Some(true));
    assert_eq!(read_yes_no("N"), Some(false));
    assert_eq!(read_yes_no("n"), Some(false));
    assert_eq!(read_yes_no(""), None);
    assert_eq!(read_yes_no("yes"), None);
}

fn sample() -> Transaction {
    Transaction {
        network: "skynet".to_string(),
        account: "QmTarget".to_string(),
        fuel_limit: 9,
        nonce: vec![0; 8],
        contract: None,
        method: "m".to_string(),
        caller: vec![1],
        args: vec![1, 2, 3, 4, 5],
        signature: vec![7; 3],
    }
}

#[test]
fn batch_entries() {
    assert_eq!(entry_path("txs", "1.bin"), "txs/1.bin");
    assert_eq!(entry_path("", "1.bin"), "/1.bin");
    let request = Message::PutTransactionRequest { confirm: false, tx: sample() };
    assert_eq!(transaction_of(request), Some(sample()));
    assert_eq!(transaction_of(Message::GetTransactionResponse { tx: sample() }), None);
}

#[test]
fn key_files_are_told_apart_by_their_names() {
    assert_eq!(key_file_kind("/dev/tpm0"), KeyFileKind::Tpm2);
    assert_eq!(key_file_kind("keys/ecdsa/tpm.der"), KeyFileKind::Tpm2);
    assert_eq!(key_file_kind("keys/ecdsa_p384.der"), KeyFileKind::Ecdsa);
    assert_eq!(key_file_kind("keys/node.kp"), KeyFileKind::Ed25519);
    assert_eq!(key_file_kind("tpm"), KeyFileKind::Ed25519);
    assert_eq!(key_file_kind("ECDSA"), KeyFileKind::Ed25519);
    assert_eq!(key_file_kind(""), KeyFileKind::Ed25519);
}

const PUB_KEY1: &str = "04afb0e912e48257da3ce9847d518dc84174403ca4c903ada40f313e2bfabee754d2976d13bb2ad63ea87df60fec758f04c9c1b147273615bbeccac7dd489beb203910171274e1b15d274d6cc0f4629166036992f2a21844c7c4c0fddd1b0e9870";
const PVT_KEY1: &str = "50148455edac9c3a408dc350fa0c263c4e9b5c164e206e3d1eff97db22e875c65543d3b7cecb053ef686b00cb3711330";
const PUB_KEY2: &str = "04755974cec8051cd19adb9f6a5daea99c768418a84f6a8e1a3c17e20b863b5e3372af75fdb1164288bcc6a85f54a781f0ad533dd722cf28437dfe763cf4d5e9ff2a862518609a0b41ba46dd6f3b9f03e4815047b5ffe2a03d1f4e6f42b2dbcca1";
const PVT_KEY2: &str = "4007db25c582d39d9912ef6095d9064bcb6b84211cf570b5dd95a10545dde27707ff4042708eae0f357b5c8bcbbfbddb";
const PUB_KEY3: &str = "0415cf93b220a8baca938323e0977db3b5a3ccfc1e02d41d92a00394776cfb03409946b22b29b1103bfe82ff9bd946f16d422045bf8ee6a3fc03e80deb10b8b163b13c521aebd943c799b67f26974932f8c3c9f836e069d354642ed9216beff000";
const PVT_KEY3: &str = "e5e86a167ddad2d28baa5b1792b3bb83ff366f57dada85d7f268f750a70bbb20d0c463ee7c71e669250efb44375735d1";

#[test]
fn built_in_key_material() {
    let k = default_keypair();
    assert_eq!(encode(&k.public_key), PUB_KEY1);
    assert_eq!(encode(&k.private_key), PVT_KEY1);
    assert_eq!(create_keypair(PUB_KEY1, PVT_KEY1), Some(k.clone()));
    let all = account_keypairs();
    assert_eq!(all.len(), 3);
    assert_eq!(all[0], k);
    assert_eq!(create_keypair(PUB_KEY2, PVT_KEY2), Some(all[1].clone()));
    assert_eq!(create_keypair(PUB_KEY3, PVT_KEY3), Some(all[2].clone()));
    assert_eq!(create_keypair("zz", PVT_KEY1), None);
    assert_eq!(create_keypair(PUB_KEY1, "abc"), None);
    assert_eq!(INITIAL_NETWORK_NAME, "bootstrap");
}

#[test]
fn transactions_are_built_unsigned() {
    let caller = KeyPair { public_key: vec![4, 5], private_key: vec![6] };
    let tx = transaction_with_nonce(
        &caller,
        "skynet".to_string(),
        "QmTarget".to_string(),
        Some(Ticket::new([2; 32])),
        "transfer".to_string(),
        vec![1, 2, 3],
        1000,
        0x0102030405060708,
    );
    assert_eq!(
        tx,
        Transaction {
            network: "skynet".to_string(),
            account: "QmTarget".to_string(),
            fuel_limit: 1000,
            nonce: vec![1, 2, 3, 4, 5, 6, 7, 8],
            contract: Some(Ticket::new([2; 32])),
            method: "transfer".to_string(),
            caller: vec![4, 5],
            args: vec![1, 2, 3],
            signature: vec![],
        }
    );
    assert_eq!(nonce_of(1), vec![0, 0, 0, 0, 0, 0, 0, 1]);
    let drawn = build_transaction(
        &caller,
        "skynet".to_string(),
        "QmTarget".to_string(),
        None,
        "m".to_string(),
        vec![],
        1,
    );
    assert_eq!(drawn.nonce.len(), 8);
    assert_eq!(drawn.caller, vec![4, 5]);
    assert_eq!(drawn.signature, Vec::<u8>::new());
    assert_eq!(Transaction { nonce: vec![], ..drawn }, Transaction {
        network: "skynet".to_string(),
        account: "QmTarget".to_string(),
        fuel_limit: 1,
        nonce: vec![],
        contract: None,
        method: "m".to_string(),
        caller: vec![4, 5],
        args: vec![],
        signature: vec![],
    });
}

#[test]
fn signature_is_made_over_the_unsigned_bytes() {
    let signed = sample();
    let bare = Transaction { signature: vec![], ..sample() };
    assert_eq!(signing_input(&signed), bare.encode());
    assert_eq!(signing_input(&bare), bare.encode());
    assert_ne!(signing_input(&signed), signed.encode());
}

#[test]
fn long_arguments_are_cut_for_showing() {
    assert_eq!(printable(&sample(), 5), (sample(), 0));
    assert_eq!(printable(&sample(), 100), (sample(), 0));
    assert_eq!(printable(&sample(), 2), (Transaction { args: vec![1, 2], ..sample() }, 5));
    assert_eq!(printable(&sample(), 0), (Transaction { args: vec![], ..sample() }, 5));
    assert_eq!(
        clip_note(2, 5),
        "Note: the `args` field is clipped to the first 2 bytes of the total 5 bytes"
    );
}

#[test]
fn payments_are_drawn_among_the_accounts() {
    assert_eq!(payment_of(7, 8, 45, 3), Payment { from: 1, to: 2, units: 5 });
    assert_eq!(payment_of(0, u64::MAX, 19, 1), Payment { from: 0, to: 0, units: 19 });
    assert_eq!(random_payment(0), None);
    for _ in 0..200 {
        let p = random_payment(3).unwrap();
        assert!(p.from < 3 && p.to < 3 && p.units < 20);
    }
}

#[test]
fn stress_plans() {
    assert_eq!(stress_plan(0), (true, 1));
    assert_eq!(stress_plan(1), (false, 1));
    assert_eq!(stress_plan(255), (false, 255));
    assert_eq!(settle_secs(false, false, false), 7);
    assert_eq!(settle_secs(true, false, true), 21);
    assert_eq!(settle_secs(true, true, true), 28);
}

#[test]
fn light_run_pauses_after_every_thirtieth_submission() {
    let mut pacer = Pacer::new();
    assert_eq!(pacer.submissions_left(), LIGHT_BURST);
    for round in 0..3 {
        for i in 1..=30u32 {
            let pause = pacer.submitted(true);
            if i == 30 {
                assert_eq!(pause, Some(LIGHT_PAUSE_SECS), "round {}", round);
                assert_eq!(pacer.submissions_left(), 30);
            } else {
                assert_eq!(pause, None);
                assert_eq!(pacer.submissions_left(), 30 - i);
            }
        }
    }
    let mut heavy = Pacer::new();
    for _ in 0..100 {
        assert_eq!(heavy.submitted(false), None);
    }
    assert_eq!(heavy.submissions_left(), 30);
    assert_eq!(LIGHT_PAUSE_SECS, 5);
}

#[test]
fn tickets_in_hexadecimal() {
    let t = Ticket::new([0xab; 32]);
    assert_eq!(t.to_hex(), "ab".repeat(32));
    assert_eq!(Ticket::from_hex(&"ab".repeat(32)), Some(t));
    assert_eq!(Ticket::from_hex(&"AB".repeat(32)), Some(t));
    assert_eq!(Ticket::from_hex(&"ab".repeat(31)), None);
    assert_eq!(Ticket::from_hex(&"ab".repeat(33)), None);
    assert_eq!(Ticket::from_hex(""), None);
    assert_eq!(Ticket::from_hex(&"xy".repeat(32)), None);
}

#[test]
fn texts_and_numbers() {
    assert_eq!(to_chars("aè€"), vec!['a', 'è', '€']);
    assert_eq!(from_chars(&vec!['a', 'è', '€']), "aè€");
    assert_eq!(find_char(&to_chars("a:b:c"), ':'), Some(1));
    assert_eq!(find_char(&to_chars("abc"), ':'), None);
    assert!(chars_are(&to_chars("abc"), "abc"));
    assert!(!chars_are(&to_chars("abc"), "abd"));
    assert!(!chars_are(&to_chars("abc"), "ab"));
    assert_eq!(lowered(&to_chars("AbC-É1")), to_chars("abc-É1"));
    assert!(has_word(&to_chars("keys/ecdsa.der"), "ecdsa"));
    assert!(has_word(&to_chars("abc"), ""));
    assert!(has_word(&to_chars("aab"), "ab"));
    assert!(!has_word(&to_chars("ab"), "abc"));
    assert_eq!(read_decimal(&to_chars("255"), 255), Some(255));
    assert_eq!(read_decimal(&to_chars("256"), 255), None);
    assert_eq!(read_decimal(&to_chars(""), 255), None);
    assert_eq!(read_decimal(&to_chars("+1"), 255), None);
    assert_eq!(read_unsigned(&to_chars("+1"), 255), Some(1));
    assert_eq!(read_unsigned(&to_chars("++1"), 255), None);
    assert_eq!(read_unsigned(&to_chars("18446744073709551615"), u64::MAX), Some(u64::MAX));
    assert_eq!(read_unsigned(&to_chars("18446744073709551616"), u64::MAX), None);
    assert_eq!(read_unsigned(&to_chars("99999999999999999999999"), u64::MAX), None);
}
