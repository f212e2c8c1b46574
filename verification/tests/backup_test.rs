//! Testes do motor de backup completo: manifesto, criação, restauração,
//! integridade e tolerância a anexos corrompidos ou ausentes.

use std::collections::HashMap;
use std::io::Cursor;
use std::io::Read;
use std::io::Write;
use std::path::PathBuf;

use vaultcraft::backup::criar_backup;
use vaultcraft::backup::nome_arquivo_backup;
use vaultcraft::backup::restaurar_backup;
use vaultcraft::backup::versao_mais_recente;
use vaultcraft::erro::ErroBackup;
use vaultcraft::manifesto::codificar_manifesto;
use vaultcraft::modelo::ManifestoBackup;

fn sha256_hex(dados: &[u8]) -> String {
    hex::encode(<sha2::Sha256 as sha2::Digest>::digest(dados))
}

fn zip_com_entradas(entradas: &[(&str, &[u8])]) -> Vec<u8> {
    let mut escritor = zip::write::ZipWriter::new(Cursor::new(Vec::new()));
    let opcoes = zip::write::SimpleFileOptions::default()
        .compression_method(zip::CompressionMethod::Deflated);
    for (nome, dados) in entradas {
        escritor.start_file(*nome, opcoes).unwrap();
        escritor.write_all(dados).unwrap();
    }
    escritor.finish().unwrap().into_inner()
}

fn procurar<'a>(pares: &'a [(String, String)], chave: &str) -> Option<&'a String> {
    pares.iter().rev().find(|p| p.0 == chave).map(|p| &p.1)
}

#[test]
fn manifesto_tem_campos_obrigatorios() {
    let manifesto = ManifestoBackup {
        versao_app: "0.1.0".to_string(),
        versao_schema: 1,
        data: "2026-02-17T10:00:00Z".to_string(),
        total_itens: 5,
        total_anexos: 3,
        hash_banco: "abc123".to_string(),
        hashes_anexos: Vec::new(),
    };

    assert_eq!(manifesto.versao_app, "0.1.0");
    assert_eq!(manifesto.versao_schema, 1);
    assert!(manifesto.total_itens > 0);
    assert!(!manifesto.hash_banco.is_empty());
}

#[test]
fn validacao_manifesto_rejeita_versao_incompativel() {
    // Um backup de uma versão futura inexistente do esquema não pode ser
    // restaurado por este sistema.
    let banco = b"dados_do_banco".to_vec();
    let arquivo = criar_backup(&banco, &Vec::new(), "0.1.0", 999, "2026-02-17T10:00:00Z", 0, 0)
        .unwrap();

    let versao_atual = 1;
    let resultado = restaurar_backup(&arquivo, versao_atual);
    match resultado {
        Err(ErroBackup::VersaoIncompativel { encontrada, suportada }) => {
            assert_eq!(encontrada, 999);
            assert_eq!(suportada, 1);
            assert!(encontrada > suportada);
        },
        outro => panic!("esperava VersaoIncompativel, veio {:?}", outro.map(|_| ())),
    }
}

#[test]
fn extensao_padrao_eh_vaultbackup() {
    let nome_arquivo = "backup_2026-02-17.vaultbackup";
    let caminho = PathBuf::from(nome_arquivo);

    assert_eq!(caminho.extension().unwrap().to_str().unwrap(), "vaultbackup");
}

#[test]
fn nome_de_backup_usa_prefixo_e_extensao() {
    let nome = nome_arquivo_backup("20260217_100000");
    assert_eq!(nome, "vaultcraft_backup_20260217_100000.vaultbackup");
}

#[test]
fn versao_mais_recente_eh_dois() {
    assert_eq!(versao_mais_recente(), 2);
}

#[test]
fn backup_e_restauracao_fazem_ida_e_volta() {
    let banco = b"conteudo completo do banco".to_vec();
    let anexos = vec![
        ("a1/foto.png".to_string(), vec![1u8, 2, 3, 4]),
        ("a2/doc.pdf".to_string(), vec![9u8, 8, 7]),
    ];
    let arquivo = criar_backup(
        &banco,
        &anexos,
        "0.1.0",
        versao_mais_recente(),
        "2026-02-17T10:00:00Z",
        2,
        2,
    )
    .unwrap();

    let plano = restaurar_backup(&arquivo, versao_mais_recente()).unwrap();
    assert_eq!(plano.banco, banco);
    assert_eq!(plano.manifesto.versao_app, "0.1.0");
    assert_eq!(plano.manifesto.total_itens, 2);
    assert_eq!(plano.anexos.len(), 2);
    let mut mapa: HashMap<String, (Vec<u8>, bool)> = HashMap::new();
    for a in &plano.anexos {
        mapa.insert(a.caminho_interno.clone(), (a.dados.clone(), a.integridade_ok));
    }
    assert_eq!(mapa["a1/foto.png"], (vec![1u8, 2, 3, 4], true));
    assert_eq!(mapa["a2/doc.pdf"], (vec![9u8, 8, 7], true));
}

#[test]
fn restauracao_detecta_banco_adulterado() {
    // Um arquivo cujo banco não confere com o resumo do manifesto é recusado
    // com erro de integridade, antes de qualquer plano ser entregue.
    let banco_original = b"banco original".to_vec();
    let manifesto = ManifestoBackup {
        versao_app: "0.1.0".to_string(),
        versao_schema: 1,
        data: "2026-02-17T10:00:00Z".to_string(),
        total_itens: 0,
        total_anexos: 0,
        hash_banco: sha256_hex(&banco_original),
        hashes_anexos: Vec::new(),
    };
    let bytes_manifesto = codificar_manifesto(&manifesto);
    let arquivo = zip_com_entradas(&[
        ("banco.sqlite", b"banco adulterado"),
        ("manifesto.json", &bytes_manifesto),
    ]);

    let resultado = restaurar_backup(&arquivo, 1);
    match resultado {
        Err(ErroBackup::Integridade) => {},
        outro => panic!("esperava Integridade, veio {:?}", outro.map(|_| ())),
    }
}

#[test]
fn restauracao_tolera_anexo_adulterado() {
    // Um anexo cujos bytes não conferem com o manifesto não impede a
    // restauração: ele é mantido, com a marca de integridade desligada.
    let banco = b"banco".to_vec();
    let bytes_bons = b"anexo bom".to_vec();
    let bytes_ruins = b"anexo trocado".to_vec();
    let manifesto = ManifestoBackup {
        versao_app: "0.1.0".to_string(),
        versao_schema: 1,
        data: "2026-02-17T10:00:00Z".to_string(),
        total_itens: 1,
        total_anexos: 1,
        hash_banco: sha256_hex(&banco),
        hashes_anexos: vec![("u1/a.txt".to_string(), sha256_hex(&bytes_bons))],
    };
    let bytes_manifesto = codificar_manifesto(&manifesto);
    let arquivo = zip_com_entradas(&[
        ("banco.sqlite", &banco),
        ("anexos/u1/a.txt", &bytes_ruins),
        ("manifesto.json", &bytes_manifesto),
    ]);

    let plano = restaurar_backup(&arquivo, 1).unwrap();
    assert_eq!(plano.anexos.len(), 1);
    assert_eq!(plano.anexos[0].caminho_interno, "u1/a.txt");
    assert_eq!(plano.anexos[0].dados, bytes_ruins);
    assert!(!plano.anexos[0].integridade_ok);
}

#[test]
fn restauracao_tolera_anexo_ausente() {
    // Um manifesto que registra um anexo sem entrada correspondente não
    // aborta a restauração: aquele anexo simplesmente não volta.
    let banco = b"banco".to_vec();
    let manifesto = ManifestoBackup {
        versao_app: "0.1.0".to_string(),
        versao_schema: 1,
        data: "2026-02-17T10:00:00Z".to_string(),
        total_itens: 1,
        total_anexos: 1,
        hash_banco: sha256_hex(&banco),
        hashes_anexos: vec![("u2/sumiu.txt".to_string(), sha256_hex(b"qualquer"))],
    };
    let bytes_manifesto = codificar_manifesto(&manifesto);
    let arquivo = zip_com_entradas(&[
        ("banco.sqlite", &banco),
        ("manifesto.json", &bytes_manifesto),
    ]);

    let plano = restaurar_backup(&arquivo, 1).unwrap();
    assert_eq!(plano.banco, banco);
    assert_eq!(plano.anexos.len(), 0);
}

#[test]
fn restauracao_recusa_arquivo_que_nao_e_zip() {
    let resultado = restaurar_backup(&b"isto nao e um zip".to_vec(), 1);
    match resultado {
        Err(ErroBackup::Formato) => {},
        outro => panic!("esperava Formato, veio {:?}", outro.map(|_| ())),
    }
}

#[test]
fn restauracao_exige_banco_no_arquivo() {
    // Um arquivo sem a entrada do banco (um pacote, por exemplo) não serve
    // para restauração completa.
    let manifesto = ManifestoBackup {
        versao_app: "0.1.0".to_string(),
        versao_schema: 1,
        data: "2026-02-17T10:00:00Z".to_string(),
        total_itens: 0,
        total_anexos: 0,
        hash_banco: String::new(),
        hashes_anexos: Vec::new(),
    };
    let bytes_manifesto = codificar_manifesto(&manifesto);
    let arquivo = zip_com_entradas(&[("manifesto.json", &bytes_manifesto)]);

    let resultado = restaurar_backup(&arquivo, 1);
    match resultado {
        Err(ErroBackup::Formato) => {},
        outro => panic!("esperava Formato, veio {:?}", outro.map(|_| ())),
    }
}

#[test]
fn cenario_de_exemplo_do_cofre() {
    // Cofre com a pasta "Bills", o item "Rent" e o anexo "lease.pdf" de 10
    // bytes: o backup registra total_itens = 1 e o resumo exato do anexo; a
    // restauração devolve o banco e o anexo byte a byte, com o mesmo resumo.
    let banco = b"pasta Bills; item Rent".to_vec();
    let lease = b"0123456789".to_vec();
    assert_eq!(lease.len(), 10);
    let resumo_d = sha256_hex(&lease);
    let caminho = "interno/lease.pdf".to_string();
    let anexos = vec![(caminho.clone(), lease.clone())];

    let arquivo = criar_backup(
        &banco,
        &anexos,
        "0.1.0",
        versao_mais_recente(),
        "2026-02-17T10:00:00Z",
        1,
        1,
    )
    .unwrap();

    let plano = restaurar_backup(&arquivo, versao_mais_recente()).unwrap();
    assert_eq!(plano.manifesto.total_itens, 1);
    assert_eq!(procurar(&plano.manifesto.hashes_anexos, &caminho), Some(&resumo_d));
    assert_eq!(plano.banco, banco);
    assert_eq!(plano.anexos.len(), 1);
    assert_eq!(plano.anexos[0].caminho_interno, caminho);
    assert_eq!(plano.anexos[0].dados, lease);
    assert!(plano.anexos[0].integridade_ok);
    assert_eq!(sha256_hex(&plano.anexos[0].dados), resumo_d);
}

#[test]
fn backup_aceita_caminhos_com_acentos() {
    let banco = b"banco".to_vec();
    let anexos = vec![("pásta à/ánexo çõm acentos.txt".to_string(), vec![42u8; 3])];
    let arquivo = criar_backup(
        &banco,
        &anexos,
        "0.1.0",
        versao_mais_recente(),
        "2026-02-17T10:00:00Z",
        1,
        1,
    )
    .unwrap();
    let plano = restaurar_backup(&arquivo, versao_mais_recente()).unwrap();
    assert_eq!(plano.anexos.len(), 1);
    assert_eq!(plano.anexos[0].caminho_interno, "pásta à/ánexo çõm acentos.txt");
    assert_eq!(plano.anexos[0].dados, vec![42u8; 3]);
    assert!(plano.anexos[0].integridade_ok);
}

#[test]
fn arquivo_produzido_e_um_zip_com_as_entradas_esperadas() {
    // O arquivo de backup abre com a própria biblioteca de ZIP e traz
    // exatamente as entradas com os nomes fixos e o manifesto legível.
    let banco = b"bytes do banco".to_vec();
    let anexos = vec![("u/a.bin".to_string(), vec![5u8, 6])];
    let arquivo = criar_backup(
        &banco,
        &anexos,
        "0.1.0",
        versao_mais_recente(),
        "2026-02-17T10:00:00Z",
        1,
        1,
    )
    .unwrap();

    let mut zip = zip::read::ZipArchive::new(Cursor::new(arquivo)).unwrap();
    let nomes: Vec<String> = zip.file_names().map(|s| s.to_string()).collect();
    assert_eq!(nomes, vec!["banco.sqlite", "anexos/u/a.bin", "manifesto.json"]);

    let mut bytes_banco = Vec::new();
    zip.by_name("banco.sqlite").unwrap().read_to_end(&mut bytes_banco).unwrap();
    assert_eq!(bytes_banco, banco);

    let mut bytes_manifesto = Vec::new();
    zip.by_name("manifesto.json").unwrap().read_to_end(&mut bytes_manifesto).unwrap();
    let manifesto = vaultcraft::manifesto::decodificar_manifesto(&bytes_manifesto).unwrap();
    assert_eq!(manifesto.hash_banco, sha256_hex(&banco));
    assert_eq!(procurar(&manifesto.hashes_anexos, "u/a.bin"), Some(&sha256_hex(&[5u8, 6])));
}

#[test]
fn backup_recusa_caminho_de_anexo_repetido() {
    let banco = b"banco".to_vec();
    let anexos = vec![
        ("mesmo/caminho".to_string(), vec![1u8]),
        ("mesmo/caminho".to_string(), vec![2u8]),
    ];
    let resultado = criar_backup(&banco, &anexos, "0.1.0", 1, "2026-02-17T10:00:00Z", 0, 2);
    assert!(resultado.is_err());
}
