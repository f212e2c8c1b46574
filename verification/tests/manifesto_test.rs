//! Testes do registro `manifesto.json`: escrita canônica, leitura de volta e
//! recusa do que não é um manifesto.

use vaultcraft::erro::ErroBackup;
use vaultcraft::manifesto::codificar_manifesto;
use vaultcraft::manifesto::decodificar_manifesto;
use vaultcraft::modelo::ManifestoBackup;

fn procurar<'a>(pares: &'a [(String, String)], chave: &str) -> Option<&'a String> {
    pares.iter().rev().find(|p| p.0 == chave).map(|p| &p.1)
}

#[test]
fn manifesto_serializa_e_deserializa_corretamente() {
    let mut hashes = Vec::new();
    hashes.push(("anexo1.pdf".to_string(), "hash_abc".to_string()));
    hashes.push(("foto.jpg".to_string(), "hash_def".to_string()));

    let manifesto = ManifestoBackup {
        versao_app: "0.1.0".to_string(),
        versao_schema: 1,
        data: "2026-02-17T10:00:00Z".to_string(),
        total_itens: 10,
        total_anexos: 2,
        hash_banco: "sha256_do_banco".to_string(),
        hashes_anexos: hashes,
    };

    let json = codificar_manifesto(&manifesto);
    let restaurado = decodificar_manifesto(&json).unwrap();

    assert_eq!(restaurado.versao_app, manifesto.versao_app);
    assert_eq!(restaurado.total_itens, manifesto.total_itens);
    assert_eq!(restaurado.total_anexos, manifesto.total_anexos);
    assert_eq!(restaurado.hashes_anexos.len(), 2);
    assert_eq!(procurar(&restaurado.hashes_anexos, "anexo1.pdf").unwrap(), "hash_abc");
}

#[test]
fn manifesto_escrito_e_um_json_legivel() {
    let manifesto = ManifestoBackup {
        versao_app: "1.2.3".to_string(),
        versao_schema: 2,
        data: "2026-02-17T10:00:00Z".to_string(),
        total_itens: 0,
        total_anexos: 0,
        hash_banco: "abc".to_string(),
        hashes_anexos: Vec::new(),
    };
    let json = String::from_utf8(codificar_manifesto(&manifesto)).unwrap();
    assert_eq!(
        json,
        "{\"versao_app\":\"1.2.3\",\"versao_schema\":2,\"data\":\"2026-02-17T10:00:00Z\",\
         \"total_itens\":0,\"total_anexos\":0,\"hash_banco\":\"abc\",\"hashes_anexos\":{}}"
    );
}

#[test]
fn manifesto_com_textos_dificeis_faz_ida_e_volta() {
    let mut hashes = Vec::new();
    hashes.push(("pasta \"x\"/nome\\com\\barras.txt".to_string(), "h1".to_string()));
    hashes.push(("acentuação/çãõ.pdf".to_string(), "h2".to_string()));

    let manifesto = ManifestoBackup {
        versao_app: "com \"aspas\" e \\barras\\".to_string(),
        versao_schema: 2147483647,
        data: "linha\nquebrada\tcom tab".to_string(),
        total_itens: 9223372036854775807,
        total_anexos: 0,
        hash_banco: String::new(),
        hashes_anexos: hashes,
    };

    let json = codificar_manifesto(&manifesto);
    let restaurado = decodificar_manifesto(&json).unwrap();
    assert_eq!(restaurado, manifesto);
}

#[test]
fn numero_grande_demais_e_recusado() {
    // Um manifesto cujo total não cabe nos inteiros do registro é recusado.
    let json = "{\"versao_app\":\"a\",\"versao_schema\":1,\"data\":\"d\",\
                 \"total_itens\":99999999999999999999,\"total_anexos\":0,\
                 \"hash_banco\":\"h\",\"hashes_anexos\":{}}";
    assert_eq!(
        decodificar_manifesto(&json.as_bytes().to_vec()),
        Err(ErroBackup::Formato)
    );
}

#[test]
fn versao_igual_a_suportada_e_aceita() {
    let arquivo = vaultcraft::backup::criar_backup(
        &b"banco".to_vec(),
        &Vec::new(),
        "0.1.0",
        7,
        "2026-02-17T10:00:00Z",
        0,
        0,
    )
    .unwrap();
    assert!(vaultcraft::backup::restaurar_backup(&arquivo, 7).is_ok());
    assert!(vaultcraft::backup::restaurar_backup(&arquivo, 6).is_err());
}

#[test]
fn manifesto_ilegivel_e_recusado() {
    assert_eq!(decodificar_manifesto(&b"nao e json".to_vec()), Err(ErroBackup::Formato));
    assert_eq!(decodificar_manifesto(&b"{}".to_vec()), Err(ErroBackup::Formato));
    assert_eq!(decodificar_manifesto(&Vec::new()), Err(ErroBackup::Formato));
    // Um manifesto com lixo depois do fim também é recusado.
    let manifesto = ManifestoBackup {
        versao_app: "a".to_string(),
        versao_schema: 1,
        data: "d".to_string(),
        total_itens: 0,
        total_anexos: 0,
        hash_banco: "h".to_string(),
        hashes_anexos: Vec::new(),
    };
    let mut json = codificar_manifesto(&manifesto);
    json.push(b' ');
    assert_eq!(decodificar_manifesto(&json), Err(ErroBackup::Formato));
}
