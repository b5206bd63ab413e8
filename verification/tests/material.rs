use tilemap_chunk::material::{
    ImageHandle, MaterialSetup, ShaderHandle, TilemapMaterial, TilemapMaterialPlugin,
    ATLAS_SAMPLER_BINDING, ATLAS_TEXTURE_BINDING, INDEX_TEXTURE_BINDING,
    TILEMAP_MATERIAL_SHADER_HANDLE, UNIFORM_BINDING,
};

#[test]
fn default_material_has_no_atlas() {
    assert_eq!(TilemapMaterial::default(), TilemapMaterial { texture: None });
}

#[test]
fn material_from_a_handle_keeps_the_handle() {
    let handle = ImageHandle { id: 0xDEAD_BEEF };
    assert_eq!(TilemapMaterial::from(handle), TilemapMaterial { texture: Some(handle) });
    let into: TilemapMaterial = handle.into();
    assert_eq!(into.texture, Some(handle));
}

#[test]
fn fragment_shader_is_kept_under_its_handle() {
    assert_eq!(TILEMAP_MATERIAL_SHADER_HANDLE, 3778691234201231346);
    assert_eq!(
        TilemapMaterial::fragment_shader(),
        ShaderHandle { id: 3778691234201231346 }
    );
}

#[test]
fn plugin_registers_the_shader_and_the_default_material() {
    let setup = TilemapMaterialPlugin.build();
    assert_eq!(
        setup,
        MaterialSetup {
            shader: TilemapMaterial::fragment_shader(),
            default_material: TilemapMaterial::default(),
        }
    );
}

#[test]
fn binding_slots_are_fixed() {
    assert_eq!(UNIFORM_BINDING, 0);
    assert_eq!(ATLAS_TEXTURE_BINDING, 1);
    assert_eq!(ATLAS_SAMPLER_BINDING, 2);
    assert_eq!(INDEX_TEXTURE_BINDING, 3);
}
